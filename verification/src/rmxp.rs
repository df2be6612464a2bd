//! Extraction from each kind of RPG Maker XP data file.
//!
//! Each function walks its data in order and appends what it finds; the
//! locations say which file, which entry (by its index or id) and which field
//! a string came from.

use vstd::prelude::*;

use crate::events::{
    lemma_commands_output_prefix, lemma_route_output_prefix, commands_are_well_formed, commands_ok, commands_output, process_eventcommands,
    process_move_route, route_is_well_formed, route_ok, route_output,
};
use crate::found::{
    lemma_concat_map_prefix, lemma_kept_prefix, lemma_prefix_all_concat, location_of,
    prefix_all, text_of, add_string, GameStringView, concat_map, kept, lemma_concat_map_take, process_script_text, script_item, views,
    Extracted, ExtractedView,
};
use crate::model::{
    Actor, Animation, Armor, Class, CommonEvent, Enemy, Event, EventPage, GameMap, Item, MapInfo,
    Script, Skill, State, System, Tileset, Troop, TroopPage, Weapon,
};
use crate::text::{
    has_visible_text,
    decimal, decimal_int, lemma_parse_decimal_roundtrip, parse_i32, parse_i32_spec, push_decimal,
    push_decimal_i64, str_equal,
};

verus! {

/// `kind`, then the index, then `field`.
pub open spec fn indexed(kind: Seq<char>, i: int, field: Seq<char>) -> Seq<char> {
    kind + decimal(i as nat) + field
}

fn indexed_location(kind: &str, i: usize, field: &str) -> (r: String)
    ensures
        r@ == indexed(kind@, i as int, field@),
{
    let mut r = String::from_str(kind);
    push_decimal(&mut r, i as u64);
    r.append(field);
    r
}

/// The name of each actor, under `Actor:{i}:name`, unless it is blank.
pub open spec fn actors_output(actors: Seq<Actor>) -> Seq<ExtractedView> {
    concat_map(actors, |i: int, x: Actor| kept(x.name@, indexed("Actor:"@, i, ":name"@)))
}

/// Adds the name of each actor.
pub fn process_actors(actors: Vec<Actor>, strings: &mut Vec<Extracted>)
    ensures
        views(final(strings)@) == views(old(strings)@) + actors_output(actors@),
{
    let ghost f = |i: int, x: Actor| kept(x.name@, indexed("Actor:"@, i, ":name"@));
    let ghost all = actors@;
    let n = actors.len();
    let mut i: usize = 0;
    for x in it: actors.into_iter()
        invariant
            it.seq() == all,
            n == all.len(),
            i == it.index(),
            f == (|i: int, x: Actor| kept(x.name@, indexed("Actor:"@, i, ":name"@))),
            views(strings@) == views(old(strings)@) + concat_map(all.take(i as int), f),
    {
        proof {
            lemma_concat_map_take(all, i as int, f);
        }
        add_string(strings, x.name, indexed_location("Actor:", i, ":name"));
        i = i + 1;
    }
    assert(all.take(all.len() as int) =~= all);
}

/// The name of each animation, under `Animation:{i}:name`, unless it is blank.
pub open spec fn animations_output(anims: Seq<Animation>) -> Seq<ExtractedView> {
    concat_map(anims, |i: int, x: Animation| kept(x.name@, indexed("Animation:"@, i, ":name"@)))
}

/// Adds the name of each animation.
pub fn process_animations(anims: Vec<Animation>, strings: &mut Vec<Extracted>)
    ensures
        views(final(strings)@) == views(old(strings)@) + animations_output(anims@),
{
    let ghost f = |i: int, x: Animation| kept(x.name@, indexed("Animation:"@, i, ":name"@));
    let ghost all = anims@;
    let n = anims.len();
    let mut i: usize = 0;
    for x in it: anims.into_iter()
        invariant
            it.seq() == all,
            n == all.len(),
            i == it.index(),
            f == (|i: int, x: Animation| kept(x.name@, indexed("Animation:"@, i, ":name"@))),
            views(strings@) == views(old(strings)@) + concat_map(all.take(i as int), f),
    {
        proof {
            lemma_concat_map_take(all, i as int, f);
        }
        add_string(strings, x.name, indexed_location("Animation:", i, ":name"));
        i = i + 1;
    }
    assert(all.take(all.len() as int) =~= all);
}

/// The name of each class, under `Class:{i}:name`, unless it is blank.
pub open spec fn classes_output(classes: Seq<Class>) -> Seq<ExtractedView> {
    concat_map(classes, |i: int, x: Class| kept(x.name@, indexed("Class:"@, i, ":name"@)))
}

/// Adds the name of each class.
pub fn process_classes(classes: Vec<Class>, strings: &mut Vec<Extracted>)
    ensures
        views(final(strings)@) == views(old(strings)@) + classes_output(classes@),
{
    let ghost f = |i: int, x: Class| kept(x.name@, indexed("Class:"@, i, ":name"@));
    let ghost all = classes@;
    let n = classes.len();
    let mut i: usize = 0;
    for x in it: classes.into_iter()
        invariant
            it.seq() == all,
            n == all.len(),
            i == it.index(),
            f == (|i: int, x: Class| kept(x.name@, indexed("Class:"@, i, ":name"@))),
            views(strings@) == views(old(strings)@) + concat_map(all.take(i as int), f),
    {
        proof {
            lemma_concat_map_take(all, i as int, f);
        }
        add_string(strings, x.name, indexed_location("Class:", i, ":name"));
        i = i + 1;
    }
    assert(all.take(all.len() as int) =~= all);
}

/// The name of each enemy, under `Enemy:{i}:name`, unless it is blank.
pub open spec fn enemies_output(enemies: Seq<Enemy>) -> Seq<ExtractedView> {
    concat_map(enemies, |i: int, x: Enemy| kept(x.name@, indexed("Enemy:"@, i, ":name"@)))
}

/// Adds the name of each enemy.
pub fn process_enemies(enemies: Vec<Enemy>, strings: &mut Vec<Extracted>)
    ensures
        views(final(strings)@) == views(old(strings)@) + enemies_output(enemies@),
{
    let ghost f = |i: int, x: Enemy| kept(x.name@, indexed("Enemy:"@, i, ":name"@));
    let ghost all = enemies@;
    let n = enemies.len();
    let mut i: usize = 0;
    for x in it: enemies.into_iter()
        invariant
            it.seq() == all,
            n == all.len(),
            i == it.index(),
            f == (|i: int, x: Enemy| kept(x.name@, indexed("Enemy:"@, i, ":name"@))),
            views(strings@) == views(old(strings)@) + concat_map(all.take(i as int), f),
    {
        proof {
            lemma_concat_map_take(all, i as int, f);
        }
        add_string(strings, x.name, indexed_location("Enemy:", i, ":name"));
        i = i + 1;
    }
    assert(all.take(all.len() as int) =~= all);
}

/// The name of each state, under `State:{i}:name`, unless it is blank.
pub open spec fn states_output(states: Seq<State>) -> Seq<ExtractedView> {
    concat_map(states, |i: int, x: State| kept(x.name@, indexed("State:"@, i, ":name"@)))
}

/// Adds the name of each state.
pub fn process_states(states: Vec<State>, strings: &mut Vec<Extracted>)
    ensures
        views(final(strings)@) == views(old(strings)@) + states_output(states@),
{
    let ghost f = |i: int, x: State| kept(x.name@, indexed("State:"@, i, ":name"@));
    let ghost all = states@;
    let n = states.len();
    let mut i: usize = 0;
    for x in it: states.into_iter()
        invariant
            it.seq() == all,
            n == all.len(),
            i == it.index(),
            f == (|i: int, x: State| kept(x.name@, indexed("State:"@, i, ":name"@))),
            views(strings@) == views(old(strings)@) + concat_map(all.take(i as int), f),
    {
        proof {
            lemma_concat_map_take(all, i as int, f);
        }
        add_string(strings, x.name, indexed_location("State:", i, ":name"));
        i = i + 1;
    }
    assert(all.take(all.len() as int) =~= all);
}

/// The name of each tileset, under `Tileset:{i}:name`, unless it is blank.
pub open spec fn tilesets_output(tilesets: Seq<Tileset>) -> Seq<ExtractedView> {
    concat_map(tilesets, |i: int, x: Tileset| kept(x.name@, indexed("Tileset:"@, i, ":name"@)))
}

/// Adds the name of each tileset.
pub fn process_tilesets(tilesets: Vec<Tileset>, strings: &mut Vec<Extracted>)
    ensures
        views(final(strings)@) == views(old(strings)@) + tilesets_output(tilesets@),
{
    let ghost f = |i: int, x: Tileset| kept(x.name@, indexed("Tileset:"@, i, ":name"@));
    let ghost all = tilesets@;
    let n = tilesets.len();
    let mut i: usize = 0;
    for x in it: tilesets.into_iter()
        invariant
            it.seq() == all,
            n == all.len(),
            i == it.index(),
            f == (|i: int, x: Tileset| kept(x.name@, indexed("Tileset:"@, i, ":name"@))),
            views(strings@) == views(old(strings)@) + concat_map(all.take(i as int), f),
    {
        proof {
            lemma_concat_map_take(all, i as int, f);
        }
        add_string(strings, x.name, indexed_location("Tileset:", i, ":name"));
        i = i + 1;
    }
    assert(all.take(all.len() as int) =~= all);
}

/// What one armor yields: its name and its description, unless blank.
pub open spec fn armor_output(i: int, x: Armor) -> Seq<ExtractedView> {
    kept(x.name@, indexed("Armor:"@, i, ":name"@)) + kept(
        x.description@,
        indexed("Armor:"@, i, ":description"@),
    )
}

/// The name and description of each armor, under `Armor:{i}:name` and
/// `Armor:{i}:description`, each unless it is blank.
pub open spec fn armors_output(armors: Seq<Armor>) -> Seq<ExtractedView> {
    concat_map(armors, |i: int, x: Armor| armor_output(i, x))
}

/// Adds the name and description of each armor.
pub fn process_armors(armors: Vec<Armor>, strings: &mut Vec<Extracted>)
    ensures
        views(final(strings)@) == views(old(strings)@) + armors_output(armors@),
{
    let ghost f = |i: int, x: Armor| armor_output(i, x);
    let ghost all = armors@;
    let n = armors.len();
    let mut i: usize = 0;
    for x in it: armors.into_iter()
        invariant
            it.seq() == all,
            n == all.len(),
            i == it.index(),
            f == (|i: int, x: Armor| armor_output(i, x)),
            views(strings@) == views(old(strings)@) + concat_map(all.take(i as int), f),
    {
        proof {
            lemma_concat_map_take(all, i as int, f);
        }
        let ghost before = views(strings@);
        add_string(strings, x.name, indexed_location("Armor:", i, ":name"));
        add_string(strings, x.description, indexed_location("Armor:", i, ":description"));
        assert(views(strings@) =~= before + armor_output(i as int, x));
        i = i + 1;
    }
    assert(all.take(all.len() as int) =~= all);
}

/// What one item yields: its name and its description, unless blank.
pub open spec fn item_output(i: int, x: Item) -> Seq<ExtractedView> {
    kept(x.name@, indexed("Item:"@, i, ":name"@)) + kept(
        x.description@,
        indexed("Item:"@, i, ":description"@),
    )
}

/// The name and description of each item, under `Item:{i}:name` and
/// `Item:{i}:description`, each unless it is blank.
pub open spec fn items_output(items: Seq<Item>) -> Seq<ExtractedView> {
    concat_map(items, |i: int, x: Item| item_output(i, x))
}

/// Adds the name and description of each item.
pub fn process_items(items: Vec<Item>, strings: &mut Vec<Extracted>)
    ensures
        views(final(strings)@) == views(old(strings)@) + items_output(items@),
{
    let ghost f = |i: int, x: Item| item_output(i, x);
    let ghost all = items@;
    let n = items.len();
    let mut i: usize = 0;
    for x in it: items.into_iter()
        invariant
            it.seq() == all,
            n == all.len(),
            i == it.index(),
            f == (|i: int, x: Item| item_output(i, x)),
            views(strings@) == views(old(strings)@) + concat_map(all.take(i as int), f),
    {
        proof {
            lemma_concat_map_take(all, i as int, f);
        }
        let ghost before = views(strings@);
        add_string(strings, x.name, indexed_location("Item:", i, ":name"));
        add_string(strings, x.description, indexed_location("Item:", i, ":description"));
        assert(views(strings@) =~= before + item_output(i as int, x));
        i = i + 1;
    }
    assert(all.take(all.len() as int) =~= all);
}

/// What one skill yields: its name and its description, unless blank.
pub open spec fn skill_output(i: int, x: Skill) -> Seq<ExtractedView> {
    kept(x.name@, indexed("Skill:"@, i, ":name"@)) + kept(
        x.description@,
        indexed("Skill:"@, i, ":description"@),
    )
}

/// The name and description of each skill, under `Skill:{i}:name` and
/// `Skill:{i}:description`, each unless it is blank.
pub open spec fn skills_output(skills: Seq<Skill>) -> Seq<ExtractedView> {
    concat_map(skills, |i: int, x: Skill| skill_output(i, x))
}

/// Adds the name and description of each skill.
pub fn process_skills(skills: Vec<Skill>, strings: &mut Vec<Extracted>)
    ensures
        views(final(strings)@) == views(old(strings)@) + skills_output(skills@),
{
    let ghost f = |i: int, x: Skill| skill_output(i, x);
    let ghost all = skills@;
    let n = skills.len();
    let mut i: usize = 0;
    for x in it: skills.into_iter()
        invariant
            it.seq() == all,
            n == all.len(),
            i == it.index(),
            f == (|i: int, x: Skill| skill_output(i, x)),
            views(strings@) == views(old(strings)@) + concat_map(all.take(i as int), f),
    {
        proof {
            lemma_concat_map_take(all, i as int, f);
        }
        let ghost before = views(strings@);
        add_string(strings, x.name, indexed_location("Skill:", i, ":name"));
        add_string(strings, x.description, indexed_location("Skill:", i, ":description"));
        assert(views(strings@) =~= before + skill_output(i as int, x));
        i = i + 1;
    }
    assert(all.take(all.len() as int) =~= all);
}

/// What one weapon yields: its name and its description, unless blank.
pub open spec fn weapon_output(i: int, x: Weapon) -> Seq<ExtractedView> {
    kept(x.name@, indexed("Weapon:"@, i, ":name"@)) + kept(
        x.description@,
        indexed("Weapon:"@, i, ":description"@),
    )
}

/// The name and description of each weapon, under `Weapon:{i}:name` and
/// `Weapon:{i}:description`, each unless it is blank.
pub open spec fn weapons_output(weapons: Seq<Weapon>) -> Seq<ExtractedView> {
    concat_map(weapons, |i: int, x: Weapon| weapon_output(i, x))
}

/// Adds the name and description of each weapon.
pub fn process_weapons(weapons: Vec<Weapon>, strings: &mut Vec<Extracted>)
    ensures
        views(final(strings)@) == views(old(strings)@) + weapons_output(weapons@),
{
    let ghost f = |i: int, x: Weapon| weapon_output(i, x);
    let ghost all = weapons@;
    let n = weapons.len();
    let mut i: usize = 0;
    for x in it: weapons.into_iter()
        invariant
            it.seq() == all,
            n == all.len(),
            i == it.index(),
            f == (|i: int, x: Weapon| weapon_output(i, x)),
            views(strings@) == views(old(strings)@) + concat_map(all.take(i as int), f),
    {
        proof {
            lemma_concat_map_take(all, i as int, f);
        }
        let ghost before = views(strings@);
        add_string(strings, x.name, indexed_location("Weapon:", i, ":name"));
        add_string(strings, x.description, indexed_location("Weapon:", i, ":description"));
        assert(views(strings@) =~= before + weapon_output(i as int, x));
        i = i + 1;
    }
    assert(all.take(all.len() as int) =~= all);
}

/// Each name of the list, under `kind{i}:name`, unless it is blank.
pub open spec fn names_output(names: Seq<String>, kind: Seq<char>) -> Seq<ExtractedView> {
    concat_map(names, |i: int, t: String| kept(t@, indexed(kind, i, ":name"@)))
}

fn process_names(names: Vec<String>, kind: &str, strings: &mut Vec<Extracted>)
    ensures
        views(final(strings)@) == views(old(strings)@) + names_output(names@, kind@),
{
    let ghost f = |i: int, t: String| kept(t@, indexed(kind@, i, ":name"@));
    let ghost all = names@;
    let n = names.len();
    let mut i: usize = 0;
    for x in it: names.into_iter()
        invariant
            it.seq() == all,
            n == all.len(),
            i == it.index(),
            f == (|i: int, t: String| kept(t@, indexed(kind@, i, ":name"@))),
            views(strings@) == views(old(strings)@) + concat_map(all.take(i as int), f),
    {
        proof {
            lemma_concat_map_take(all, i as int, f);
        }
        add_string(strings, x, indexed_location(kind, i, ":name"));
        i = i + 1;
    }
    assert(all.take(all.len() as int) =~= all);
}

/// The names of the elements, switches and variables, under
/// `Element:{i}:name`, `Switch:{i}:name` and `Variable:{i}:name`, each unless blank.
pub open spec fn system_output(system: System) -> Seq<ExtractedView> {
    names_output(system.elements@, "Element:"@) + names_output(system.switches@, "Switch:"@)
        + names_output(system.variables@, "Variable:"@)
}

/// Adds the names of the system data's elements, switches and variables.
pub fn process_system(system: System, strings: &mut Vec<Extracted>)
    ensures
        views(final(strings)@) == views(old(strings)@) + system_output(system),
{
    let ghost before = views(strings@);
    let System { elements, switches, variables } = system;
    process_names(elements, "Element:", strings);
    process_names(switches, "Switch:", strings);
    process_names(variables, "Variable:", strings);
    assert(views(strings@) =~= before + system_output(system));
}

/// The command lists of the pages, page `p` under the context `prefix{p}`.
pub open spec fn pages_output(pages: Seq<TroopPage>, prefix: Seq<char>) -> Seq<ExtractedView> {
    concat_map(
        pages,
        |p: int, page: TroopPage| commands_output(page.list@, 0, prefix + decimal(p as nat)),
    )
}

/// Every command list of the pages holds what extraction reads.
pub open spec fn troop_pages_ok(pages: Seq<TroopPage>) -> bool {
    forall|p: int| 0 <= p < pages.len() ==> commands_ok(#[trigger] pages[p].list@, 0)
}

fn process_troop_pages(pages: Vec<TroopPage>, prefix: &str, strings: &mut Vec<Extracted>)
    requires
        troop_pages_ok(pages@),
    ensures
        views(final(strings)@) == views(old(strings)@) + pages_output(pages@, prefix@),
{
    let ghost f = |p: int, page: TroopPage|
        commands_output(page.list@, 0, prefix@ + decimal(p as nat));
    let ghost all = pages@;
    let n = pages.len();
    let mut p: usize = 0;
    for page in it: pages.into_iter()
        invariant
            it.seq() == all,
            n == all.len(),
            p == it.index(),
            troop_pages_ok(all),
            f == (|p: int, page: TroopPage|
                commands_output(page.list@, 0, prefix@ + decimal(p as nat))),
            views(strings@) == views(old(strings)@) + concat_map(all.take(p as int), f),
    {
        proof {
            lemma_concat_map_take(all, p as int, f);
        }
        assert(commands_ok(all[p as int].list@, 0));
        let mut context = String::from_str(prefix);
        push_decimal(&mut context, p as u64);
        process_eventcommands(page.list, strings, context.as_str());
        p = p + 1;
    }
    assert(all.take(all.len() as int) =~= all);
}

/// What one troop yields: its name unless blank, then the command list of
/// each page under `Troop:{i}:page:{p}`.
pub open spec fn troop_output(i: int, t: Troop) -> Seq<ExtractedView> {
    kept(t.name@, indexed("Troop:"@, i, ":name"@)) + pages_output(
        t.pages@,
        indexed("Troop:"@, i, ":page:"@),
    )
}

/// What the troops yield, troop by troop.
pub open spec fn troops_output(troops: Seq<Troop>) -> Seq<ExtractedView> {
    concat_map(troops, |i: int, t: Troop| troop_output(i, t))
}

/// Every command list of every troop holds what extraction reads.
pub open spec fn troops_ok(troops: Seq<Troop>) -> bool {
    forall|i: int| 0 <= i < troops.len() ==> troop_pages_ok(#[trigger] troops[i].pages@)
}

/// Adds the name of each troop and the text of its pages' command lists.
pub fn process_troops(troops: Vec<Troop>, strings: &mut Vec<Extracted>)
    requires
        troops_ok(troops@),
    ensures
        views(final(strings)@) == views(old(strings)@) + troops_output(troops@),
{
    let ghost f = |i: int, t: Troop| troop_output(i, t);
    let ghost all = troops@;
    let n = troops.len();
    let mut i: usize = 0;
    for x in it: troops.into_iter()
        invariant
            it.seq() == all,
            n == all.len(),
            i == it.index(),
            troops_ok(all),
            f == (|i: int, t: Troop| troop_output(i, t)),
            views(strings@) == views(old(strings)@) + concat_map(all.take(i as int), f),
    {
        proof {
            lemma_concat_map_take(all, i as int, f);
        }
        assert(troop_pages_ok(all[i as int].pages@));
        let ghost before = views(strings@);
        let Troop { name, pages } = x;
        add_string(strings, name, indexed_location("Troop:", i, ":name"));
        let prefix = indexed_location("Troop:", i, ":page:");
        process_troop_pages(pages, prefix.as_str(), strings);
        assert(views(strings@) =~= before + troop_output(i as int, x));
        i = i + 1;
    }
    assert(all.take(all.len() as int) =~= all);
}

/// What one entry of the map infos yields: the map's name under `Map:{id}:name`, unless blank.
pub open spec fn mapinfo_output(e: (usize, MapInfo)) -> Seq<ExtractedView> {
    kept(e.1.name@, indexed("Map:"@, e.0 as int, ":name"@))
}

/// What the map infos yield, entry by entry.
pub open spec fn mapinfos_output(mapinfos: Seq<(usize, MapInfo)>) -> Seq<ExtractedView> {
    concat_map(mapinfos, |k: int, e: (usize, MapInfo)| mapinfo_output(e))
}

/// Adds the name of each map.
pub fn process_mapinfos(mapinfos: Vec<(usize, MapInfo)>, strings: &mut Vec<Extracted>)
    ensures
        views(final(strings)@) == views(old(strings)@) + mapinfos_output(mapinfos@),
{
    let ghost f = |k: int, e: (usize, MapInfo)| mapinfo_output(e);
    let ghost all = mapinfos@;
    let n = mapinfos.len();
    let mut k: usize = 0;
    for x in it: mapinfos.into_iter()
        invariant
            it.seq() == all,
            n == all.len(),
            k == it.index(),
            f == (|k: int, e: (usize, MapInfo)| mapinfo_output(e)),
            views(strings@) == views(old(strings)@) + concat_map(all.take(k as int), f),
    {
        proof {
            lemma_concat_map_take(all, k as int, f);
        }
        let (id, info) = x;
        add_string(strings, info.name, indexed_location("Map:", id, ":name"));
        k = k + 1;
    }
    assert(all.take(all.len() as int) =~= all);
}

/// What one common event yields: its name unless blank, then the text of its
/// command list under `CommonEvent:{i}`.
pub open spec fn commonevent_output(i: int, e: CommonEvent) -> Seq<ExtractedView> {
    kept(e.name@, indexed("CommonEvent:"@, i, ":name"@)) + commands_output(
        e.list@,
        0,
        "CommonEvent:"@ + decimal(i as nat),
    )
}

/// What the common events yield, event by event.
pub open spec fn commonevents_output(events: Seq<CommonEvent>) -> Seq<ExtractedView> {
    concat_map(events, |i: int, e: CommonEvent| commonevent_output(i, e))
}

/// Every command list of the common events holds what extraction reads.
pub open spec fn commonevents_ok(events: Seq<CommonEvent>) -> bool {
    forall|i: int| 0 <= i < events.len() ==> commands_ok(#[trigger] events[i].list@, 0)
}

/// Adds the name of each common event and the text of its command list.
pub fn process_commonevents(events: Vec<CommonEvent>, strings: &mut Vec<Extracted>)
    requires
        commonevents_ok(events@),
    ensures
        views(final(strings)@) == views(old(strings)@) + commonevents_output(events@),
{
    let ghost f = |i: int, e: CommonEvent| commonevent_output(i, e);
    let ghost all = events@;
    let n = events.len();
    let mut i: usize = 0;
    for x in it: events.into_iter()
        invariant
            it.seq() == all,
            n == all.len(),
            i == it.index(),
            commonevents_ok(all),
            f == (|i: int, e: CommonEvent| commonevent_output(i, e)),
            views(strings@) == views(old(strings)@) + concat_map(all.take(i as int), f),
    {
        proof {
            lemma_concat_map_take(all, i as int, f);
        }
        assert(commands_ok(all[i as int].list@, 0));
        let ghost before = views(strings@);
        let CommonEvent { name, list } = x;
        add_string(strings, name, indexed_location("CommonEvent:", i, ":name"));
        let mut context = String::from_str("CommonEvent:");
        push_decimal(&mut context, i as u64);
        process_eventcommands(list, strings, context.as_str());
        assert(views(strings@) =~= before + commonevent_output(i as int, x));
        i = i + 1;
    }
    assert(all.take(all.len() as int) =~= all);
}

/// Each script's source, under `Script:{name}`.
pub open spec fn scripts_output(scripts: Seq<Script>) -> Seq<ExtractedView> {
    concat_map(scripts, |k: int, s: Script| seq![script_item("Script:"@ + s.name@, s.text@)])
}

/// Hands on the source of each script.
pub fn process_scripts(scripts: Vec<Script>, strings: &mut Vec<Extracted>)
    ensures
        views(final(strings)@) == views(old(strings)@) + scripts_output(scripts@),
{
    let ghost f = |k: int, s: Script| seq![script_item("Script:"@ + s.name@, s.text@)];
    let ghost all = scripts@;
    let n = scripts.len();
    let mut k: usize = 0;
    for x in it: scripts.into_iter()
        invariant
            it.seq() == all,
            n == all.len(),
            k == it.index(),
            f == (|k: int, s: Script| seq![script_item("Script:"@ + s.name@, s.text@)]),
            views(strings@) == views(old(strings)@) + concat_map(all.take(k as int), f),
    {
        proof {
            lemma_concat_map_take(all, k as int, f);
        }
        let Script { name, text } = x;
        let mut context = String::from_str("Script:");
        context.append(name.as_str());
        process_script_text(text, strings, context);
        k = k + 1;
    }
    assert(all.take(all.len() as int) =~= all);
}

/// `Map:{map_id}:event:{id}`: what the locations of an event start with.
pub open spec fn event_prefix(map_id: i32, id: usize) -> Seq<char> {
    "Map:"@ + decimal_int(map_id as int) + ":event:"@ + decimal(id as nat)
}

/// The context of page `p` of an event.
pub open spec fn page_context(prefix: Seq<char>, p: int) -> Seq<char> {
    prefix + ":page:"@ + decimal(p as nat)
}

/// What one page of an event yields: the text of its command list, then the
/// scripts of its move route under the page's context and `:route`.
pub open spec fn event_page_output(prefix: Seq<char>, p: int, page: EventPage) -> Seq<
    ExtractedView,
> {
    commands_output(page.list@, 0, page_context(prefix, p)) + route_output(
        page.move_route,
        page_context(prefix, p) + ":route"@,
    )
}

/// The pages of an event, page by page.
pub open spec fn event_pages_output(prefix: Seq<char>, pages: Seq<EventPage>) -> Seq<
    ExtractedView,
> {
    concat_map(pages, |p: int, page: EventPage| event_page_output(prefix, p, page))
}

/// What one event of a map yields: its name unless blank, then its pages.
pub open spec fn event_output(map_id: i32, id: usize, ev: Event) -> Seq<ExtractedView> {
    kept(ev.name@, event_prefix(map_id, id) + ":name"@) + event_pages_output(
        event_prefix(map_id, id),
        ev.pages@,
    )
}

/// What a map yields, event by event.
pub open spec fn map_output(map: GameMap, map_id: i32) -> Seq<ExtractedView> {
    concat_map(map.events@, |k: int, e: (usize, Event)| event_output(map_id, e.0, e.1))
}

/// Every page holds a command list and a move route that extraction can read.
pub open spec fn event_pages_ok(pages: Seq<EventPage>) -> bool {
    forall|p: int|
        0 <= p < pages.len() ==> commands_ok(#[trigger] pages[p].list@, 0) && route_ok(
            pages[p].move_route,
        )
}

/// Every page of every event of the map can be read.
pub open spec fn map_ok(map: GameMap) -> bool {
    forall|k: int| 0 <= k < map.events@.len() ==> event_pages_ok(#[trigger] map.events@[k].1.pages@)
}

/// What one event yields, without the leading `Map:{map_id}` of its locations.
pub open spec fn event_body(id: usize, ev: Event) -> Seq<ExtractedView> {
    kept(ev.name@, ":event:"@ + decimal(id as nat) + ":name"@) + event_pages_output(
        ":event:"@ + decimal(id as nat),
        ev.pages@,
    )
}

/// What a map yields, without the leading `Map:{map_id}` of its locations.
pub open spec fn map_body(map: GameMap) -> Seq<ExtractedView> {
    concat_map(map.events@, |k: int, e: (usize, Event)| event_body(e.0, e.1))
}

proof fn lemma_event_pages_prefix(p: Seq<char>, e: Seq<char>, pages: Seq<EventPage>)
    ensures
        event_pages_output(p + e, pages) == prefix_all(p, event_pages_output(e, pages)),
{
    let f = |q: int, page: EventPage| event_page_output(e, q, page);
    let g = |q: int, page: EventPage| event_page_output(p + e, q, page);
    assert forall|q: int| 0 <= q < pages.len() implies #[trigger] g(q, pages[q]) == prefix_all(
        p,
        f(q, pages[q]),
    ) by {
        let page = pages[q];
        let c = page_context(e, q);
        assert(page_context(p + e, q) =~= p + c);
        assert(page_context(p + e, q) + ":route"@ =~= p + (c + ":route"@));
        lemma_commands_output_prefix(page.list@, p, c);
        lemma_route_output_prefix(page.move_route, p, c + ":route"@);
        lemma_prefix_all_concat(
            p,
            commands_output(page.list@, 0, c),
            route_output(page.move_route, c + ":route"@),
        );
    }
    lemma_concat_map_prefix(pages, f, g, p);
}

/// What a map yields under the id `map_id` is what it yields without an id,
/// with `Map:{map_id}` in front of each location.
pub proof fn lemma_map_output_prefix(map: GameMap, map_id: i32)
    ensures
        map_output(map, map_id) == prefix_all("Map:"@ + decimal_int(map_id as int), map_body(map)),
{
    let p = "Map:"@ + decimal_int(map_id as int);
    let f = |k: int, e: (usize, Event)| event_body(e.0, e.1);
    let g = |k: int, e: (usize, Event)| event_output(map_id, e.0, e.1);
    assert forall|k: int| 0 <= k < map.events@.len() implies #[trigger] g(k, map.events@[k])
        == prefix_all(p, f(k, map.events@[k])) by {
        let (id, ev) = map.events@[k];
        let e = ":event:"@ + decimal(id as nat);
        assert(event_prefix(map_id, id) =~= p + e);
        assert(event_prefix(map_id, id) + ":name"@ =~= p + (e + ":name"@));
        lemma_kept_prefix(ev.name@, p, e + ":name"@);
        lemma_event_pages_prefix(p, e, ev.pages@);
        lemma_prefix_all_concat(
            p,
            kept(ev.name@, e + ":name"@),
            event_pages_output(e, ev.pages@),
        );
    }
    lemma_concat_map_prefix(map.events@, f, g, p);
}

/// The same map under two ids yields the same items with the same texts in
/// the same order; each location under `b` is the one under `a` with its
/// leading `Map:{a}` replaced by `Map:{b}`.
pub proof fn lemma_map_ids(map: GameMap, a: i32, b: i32)
    ensures
        map_output(map, a).len() == map_output(map, b).len(),
        forall|k: int|
            0 <= k < map_output(map, a).len() ==> {
                let x = #[trigger] map_output(map, a)[k];
                let y = map_output(map, b)[k];
                let rest = location_of(map_body(map)[k]);
                &&& (x is Text <==> y is Text)
                &&& text_of(x) == text_of(y)
                &&& location_of(x) == "Map:"@ + decimal_int(a as int) + rest
                &&& location_of(y) == "Map:"@ + decimal_int(b as int) + rest
            },
{
    lemma_map_output_prefix(map, a);
    lemma_map_output_prefix(map, b);
}

fn process_event_pages(pages: Vec<EventPage>, prefix: &str, strings: &mut Vec<Extracted>)
    requires
        event_pages_ok(pages@),
    ensures
        views(final(strings)@) == views(old(strings)@) + event_pages_output(prefix@, pages@),
{
    let ghost f = |p: int, page: EventPage| event_page_output(prefix@, p, page);
    let ghost all = pages@;
    let n = pages.len();
    let mut p: usize = 0;
    for page in it: pages.into_iter()
        invariant
            it.seq() == all,
            n == all.len(),
            p == it.index(),
            event_pages_ok(all),
            f == (|p: int, page: EventPage| event_page_output(prefix@, p, page)),
            views(strings@) == views(old(strings)@) + concat_map(all.take(p as int), f),
    {
        proof {
            lemma_concat_map_take(all, p as int, f);
        }
        assert(commands_ok(all[p as int].list@, 0));
        let ghost before = views(strings@);
        let EventPage { list, move_route } = page;
        let mut context = String::from_str(prefix);
        context.append(":page:");
        push_decimal(&mut context, p as u64);
        process_eventcommands(list, strings, context.as_str());
        let mut route_context = context.clone();
        route_context.append(":route");
        process_move_route(&move_route, strings, route_context.as_str());
        assert(views(strings@) =~= before + event_page_output(prefix@, p as int, page));
        p = p + 1;
    }
    assert(all.take(all.len() as int) =~= all);
}

/// Adds the name of each event of the map, and the text of its pages'
/// command lists and move routes.
pub fn process_map(map: GameMap, map_id: i32, strings: &mut Vec<Extracted>)
    requires
        map_ok(map),
    ensures
        views(final(strings)@) == views(old(strings)@) + map_output(map, map_id),
{
    let ghost f = |k: int, e: (usize, Event)| event_output(map_id, e.0, e.1);
    let ghost all = map.events@;
    let n = map.events.len();
    let mut k: usize = 0;
    for x in it: map.events.into_iter()
        invariant
            it.seq() == all,
            n == all.len(),
            k == it.index(),
            forall|j: int| 0 <= j < all.len() ==> event_pages_ok(#[trigger] all[j].1.pages@),
            f == (|k: int, e: (usize, Event)| event_output(map_id, e.0, e.1)),
            views(strings@) == views(old(strings)@) + concat_map(all.take(k as int), f),
    {
        proof {
            lemma_concat_map_take(all, k as int, f);
        }
        assert(event_pages_ok(all[k as int].1.pages@));
        let ghost before = views(strings@);
        let (id, event) = x;
        let Event { name, pages } = event;
        let mut prefix = String::from_str("Map:");
        push_decimal_i64(&mut prefix, map_id as i64);
        prefix.append(":event:");
        push_decimal(&mut prefix, id as u64);
        let mut location = prefix.clone();
        location.append(":name");
        add_string(strings, name, location);
        process_event_pages(pages, prefix.as_str(), strings);
        assert(views(strings@) =~= before + event_output(map_id, x.0, x.1));
        k = k + 1;
    }
    assert(all.take(all.len() as int) =~= all);
}

/// The loaded contents of one data file.
pub enum GameData {
    Actors(Vec<Actor>),
    Animations(Vec<Animation>),
    Armors(Vec<Armor>),
    Classes(Vec<Class>),
    Enemies(Vec<Enemy>),
    Items(Vec<Item>),
    Skills(Vec<Skill>),
    States(Vec<State>),
    System(System),
    Tilesets(Vec<Tileset>),
    Troops(Vec<Troop>),
    Weapons(Vec<Weapon>),
    MapInfos(Vec<(usize, MapInfo)>),
    CommonEvents(Vec<CommonEvent>),
    /// A map, with the id that its file name gives.
    MapFile(GameMap, i32),
    Scripts(Vec<Script>),
}

/// Every command list and move route of the data holds what extraction reads.
pub open spec fn data_ok(data: GameData) -> bool {
    match data {
        GameData::Troops(t) => troops_ok(t@),
        GameData::CommonEvents(e) => commonevents_ok(e@),
        GameData::MapFile(m, _) => map_ok(m),
        _ => true,
    }
}

/// What the data of a file yields.
pub open spec fn data_output(data: GameData) -> Seq<ExtractedView> {
    match data {
        GameData::Actors(x) => actors_output(x@),
        GameData::Animations(x) => animations_output(x@),
        GameData::Armors(x) => armors_output(x@),
        GameData::Classes(x) => classes_output(x@),
        GameData::Enemies(x) => enemies_output(x@),
        GameData::Items(x) => items_output(x@),
        GameData::Skills(x) => skills_output(x@),
        GameData::States(x) => states_output(x@),
        GameData::System(x) => system_output(x),
        GameData::Tilesets(x) => tilesets_output(x@),
        GameData::Troops(x) => troops_output(x@),
        GameData::Weapons(x) => weapons_output(x@),
        GameData::MapInfos(x) => mapinfos_output(x@),
        GameData::CommonEvents(x) => commonevents_output(x@),
        GameData::MapFile(m, id) => map_output(m, id),
        GameData::Scripts(x) => scripts_output(x@),
    }
}

/// Extracts from the data of one file.
pub fn process_data(data: GameData, strings: &mut Vec<Extracted>)
    requires
        data_ok(data),
    ensures
        views(final(strings)@) == views(old(strings)@) + data_output(data),
{
    match data {
        GameData::Actors(x) => process_actors(x, strings),
        GameData::Animations(x) => process_animations(x, strings),
        GameData::Armors(x) => process_armors(x, strings),
        GameData::Classes(x) => process_classes(x, strings),
        GameData::Enemies(x) => process_enemies(x, strings),
        GameData::Items(x) => process_items(x, strings),
        GameData::Skills(x) => process_skills(x, strings),
        GameData::States(x) => process_states(x, strings),
        GameData::System(x) => process_system(x, strings),
        GameData::Tilesets(x) => process_tilesets(x, strings),
        GameData::Troops(x) => process_troops(x, strings),
        GameData::Weapons(x) => process_weapons(x, strings),
        GameData::MapInfos(x) => process_mapinfos(x, strings),
        GameData::CommonEvents(x) => process_commonevents(x, strings),
        GameData::MapFile(m, id) => process_map(m, id, strings),
        GameData::Scripts(x) => process_scripts(x, strings),
    }
}

/// How processing one data file ended.
pub enum ProcessResult {
    /// The file was read and its strings extracted.
    Processed,
    /// The file could not be loaded; the message says why.
    Failed(String),
    /// The file's name names no data file that extraction knows.
    Unrecognized,
}

/// Processes one data file: `None` when its name names no data file that
/// extraction knows, else the outcome of loading it.
pub fn process(loaded: Option<Result<GameData, String>>, strings: &mut Vec<Extracted>) -> (r:
    ProcessResult)
    requires
        loaded matches Some(Ok(d)) ==> data_ok(d),
    ensures
        match loaded {
            None => r is Unrecognized && views(final(strings)@) == views(old(strings)@),
            Some(Err(e)) => r == ProcessResult::Failed(e) && views(final(strings)@) == views(
                old(strings)@,
            ),
            Some(Ok(d)) => r is Processed && views(final(strings)@) == views(old(strings)@)
                + data_output(d),
        },
{
    match loaded {
        None => ProcessResult::Unrecognized,
        Some(Err(e)) => ProcessResult::Failed(e),
        Some(Ok(data)) => {
            process_data(data, strings);
            ProcessResult::Processed
        },
    }
}

fn pages_are_well_formed(pages: &Vec<TroopPage>) -> (b: bool)
    ensures
        b == troop_pages_ok(pages@),
{
    let n = pages.len();
    let mut p: usize = 0;
    while p < n
        invariant
            n == pages@.len(),
            p <= n,
            forall|q: int| 0 <= q < p ==> commands_ok(#[trigger] pages@[q].list@, 0),
        decreases n - p,
    {
        if !commands_are_well_formed(&pages[p].list) {
            return false;
        }
        p = p + 1;
    }
    true
}

fn event_pages_are_well_formed(pages: &Vec<EventPage>) -> (b: bool)
    ensures
        b == event_pages_ok(pages@),
{
    let n = pages.len();
    let mut p: usize = 0;
    while p < n
        invariant
            n == pages@.len(),
            p <= n,
            forall|q: int|
                0 <= q < p ==> commands_ok(#[trigger] pages@[q].list@, 0) && route_ok(
                    pages@[q].move_route,
                ),
        decreases n - p,
    {
        if !commands_are_well_formed(&pages[p].list) || !route_is_well_formed(
            &pages[p].move_route,
        ) {
            return false;
        }
        p = p + 1;
    }
    true
}

/// Whether every command list and move route of the data holds what
/// extraction reads, so that `process_data` can take it.
pub fn data_is_well_formed(data: &GameData) -> (b: bool)
    ensures
        b == data_ok(*data),
{
    match data {
        GameData::Troops(troops) => {
            let n = troops.len();
            let mut i: usize = 0;
            while i < n
                invariant
                    n == troops@.len(),
                    i <= n,
                    data_ok(*data) == troops_ok(troops@),
                    forall|j: int| 0 <= j < i ==> troop_pages_ok(#[trigger] troops@[j].pages@),
                decreases n - i,
            {
                if !pages_are_well_formed(&troops[i].pages) {
                    return false;
                }
                i = i + 1;
            }
            true
        },
        GameData::CommonEvents(events) => {
            let n = events.len();
            let mut i: usize = 0;
            while i < n
                invariant
                    n == events@.len(),
                    i <= n,
                    data_ok(*data) == commonevents_ok(events@),
                    forall|j: int| 0 <= j < i ==> commands_ok(#[trigger] events@[j].list@, 0),
                decreases n - i,
            {
                if !commands_are_well_formed(&events[i].list) {
                    return false;
                }
                i = i + 1;
            }
            true
        },
        GameData::MapFile(map, _) => {
            let n = map.events.len();
            let mut k: usize = 0;
            while k < n
                invariant
                    n == map.events@.len(),
                    k <= n,
                    data_ok(*data) == map_ok(*map),
                    forall|j: int|
                        0 <= j < k ==> event_pages_ok(#[trigger] map.events@[j].1.pages@),
                decreases n - k,
            {
                if !event_pages_are_well_formed(&map.events[k].1.pages) {
                    return false;
                }
                k = k + 1;
            }
            true
        },
        _ => true,
    }
}

/// The kind of data file, as its name (without extension) gives it.
pub enum DataFile {
    Actors,
    Animations,
    Armors,
    Classes,
    Enemies,
    Items,
    Skills,
    States,
    System,
    Tilesets,
    Troops,
    Weapons,
    MapInfos,
    CommonEvents,
    /// `Map` followed by the map's id, as in `Map001`.
    MapFile(i32),
    Scripts,
}

/// The name starts with `Map`.
pub open spec fn is_map_name(name: Seq<char>) -> bool {
    name.len() >= 3 && name.take(3) == "Map"@
}

/// The kind of data file that the name names, if any: the exact names of
/// the data files, `Map` followed by an `i32` for a map, and `Scripts` or
/// `xScripts` for the scripts.
pub open spec fn data_file_spec(name: Seq<char>) -> Option<DataFile> {
    if name == "Actors"@ {
        Some(DataFile::Actors)
    } else if name == "Animations"@ {
        Some(DataFile::Animations)
    } else if name == "Armors"@ {
        Some(DataFile::Armors)
    } else if name == "Classes"@ {
        Some(DataFile::Classes)
    } else if name == "Enemies"@ {
        Some(DataFile::Enemies)
    } else if name == "Items"@ {
        Some(DataFile::Items)
    } else if name == "Skills"@ {
        Some(DataFile::Skills)
    } else if name == "States"@ {
        Some(DataFile::States)
    } else if name == "System"@ {
        Some(DataFile::System)
    } else if name == "Tilesets"@ {
        Some(DataFile::Tilesets)
    } else if name == "Troops"@ {
        Some(DataFile::Troops)
    } else if name == "Weapons"@ {
        Some(DataFile::Weapons)
    } else if name == "MapInfos"@ {
        Some(DataFile::MapInfos)
    } else if name == "CommonEvents"@ {
        Some(DataFile::CommonEvents)
    } else if is_map_name(name) {
        Some(DataFile::MapFile(parse_i32_spec(name.skip(3)).unwrap()))
    } else if name == "Scripts"@ || name == "xScripts"@ {
        Some(DataFile::Scripts)
    } else {
        None
    }
}

/// A name that starts with `Map` (other than `MapInfos`) goes on with a map id.
pub open spec fn data_file_name_ok(name: Seq<char>) -> bool {
    is_map_name(name) && name != "MapInfos"@ ==> parse_i32_spec(name.skip(3)) is Some
}

/// The kind of data file that the name (without extension) names, if any.
pub fn classify_data_file(filename: &str) -> (r: Option<DataFile>)
    requires
        data_file_name_ok(filename@),
    ensures
        r == data_file_spec(filename@),
{
    if str_equal(filename, "Actors") {
        Some(DataFile::Actors)
    } else if str_equal(filename, "Animations") {
        Some(DataFile::Animations)
    } else if str_equal(filename, "Armors") {
        Some(DataFile::Armors)
    } else if str_equal(filename, "Classes") {
        Some(DataFile::Classes)
    } else if str_equal(filename, "Enemies") {
        Some(DataFile::Enemies)
    } else if str_equal(filename, "Items") {
        Some(DataFile::Items)
    } else if str_equal(filename, "Skills") {
        Some(DataFile::Skills)
    } else if str_equal(filename, "States") {
        Some(DataFile::States)
    } else if str_equal(filename, "System") {
        Some(DataFile::System)
    } else if str_equal(filename, "Tilesets") {
        Some(DataFile::Tilesets)
    } else if str_equal(filename, "Troops") {
        Some(DataFile::Troops)
    } else if str_equal(filename, "Weapons") {
        Some(DataFile::Weapons)
    } else if str_equal(filename, "MapInfos") {
        Some(DataFile::MapInfos)
    } else if str_equal(filename, "CommonEvents") {
        Some(DataFile::CommonEvents)
    } else if starts_with_map(filename) {
        let n = filename.unicode_len();
        let rest = filename.substring_char(3, n);
        assert(rest@ =~= filename@.skip(3));
        Some(DataFile::MapFile(parse_i32(rest).unwrap()))
    } else if str_equal(filename, "Scripts") || str_equal(filename, "xScripts") {
        Some(DataFile::Scripts)
    } else {
        None
    }
}

fn starts_with_map(name: &str) -> (r: bool)
    ensures
        r == is_map_name(name@),
{
    let n = name.unicode_len();
    if n < 3 {
        return false;
    }
    let head = name.substring_char(0, 3);
    assert(head@ =~= name@.take(3));
    str_equal(head, "Map")
}

/// The name of a map's file, `Map` followed by the map's id, names that map.
pub proof fn lemma_map_file_name(id: i32)
    ensures
        data_file_name_ok("Map"@ + decimal_int(id as int)),
        data_file_spec("Map"@ + decimal_int(id as int)) == Some(DataFile::MapFile(id)),
{
    let digits = decimal_int(id as int);
    let name = "Map"@ + digits;
    lemma_parse_decimal_roundtrip(id);
    reveal_strlit("Map");
    reveal_strlit("MapInfos");
    reveal_strlit("Actors");
    reveal_strlit("Animations");
    reveal_strlit("Armors");
    reveal_strlit("Classes");
    reveal_strlit("Enemies");
    reveal_strlit("Items");
    reveal_strlit("Skills");
    reveal_strlit("States");
    reveal_strlit("System");
    reveal_strlit("Tilesets");
    reveal_strlit("Troops");
    reveal_strlit("Weapons");
    reveal_strlit("CommonEvents");
    assert(name.take(3) =~= "Map"@);
    assert(name.skip(3) =~= digits);
    assert(parse_i32_spec(digits) is Some);
    assert(digits.len() > 0);
    assert(name[3] == digits[0]);
    assert(digits[0] != 'I') by {
        if id < 0 {
            assert(digits[0] == '-');
        } else {
            assert(parse_i32_spec(digits) is Some);
        }
    }
    assert(name[0] == 'M');
    assert(name != "MapInfos"@) by {
        assert("MapInfos"@[3] == 'I');
    }
    assert(name != "Actors"@) by {
        assert("Actors"@[0] == 'A');
    }
    assert(name != "Animations"@) by {
        assert("Animations"@[0] == 'A');
    }
    assert(name != "Armors"@) by {
        assert("Armors"@[0] == 'A');
    }
    assert(name != "Classes"@) by {
        assert("Classes"@[0] == 'C');
    }
    assert(name != "Enemies"@) by {
        assert("Enemies"@[0] == 'E');
    }
    assert(name != "Items"@) by {
        assert("Items"@[0] == 'I');
    }
    assert(name != "Skills"@) by {
        assert("Skills"@[0] == 'S');
    }
    assert(name != "States"@) by {
        assert("States"@[0] == 'S');
    }
    assert(name != "System"@) by {
        assert("System"@[0] == 'S');
    }
    assert(name != "Tilesets"@) by {
        assert("Tilesets"@[0] == 'T');
    }
    assert(name != "Troops"@) by {
        assert("Troops"@[0] == 'T');
    }
    assert(name != "Weapons"@) by {
        assert("Weapons"@[0] == 'W');
    }
    assert(name != "CommonEvents"@) by {
        assert("CommonEvents"@[0] == 'C');
    }
}

/// Whether a name that starts with `Map` (other than `MapInfos`) goes on with
/// a map id, so that `classify_data_file` can take it.
pub fn data_file_name_is_valid(filename: &str) -> (r: bool)
    ensures
        r == data_file_name_ok(filename@),
{
    if starts_with_map(filename) && !str_equal(filename, "MapInfos") {
        let n = filename.unicode_len();
        let rest = filename.substring_char(3, n);
        assert(rest@ =~= filename@.skip(3));
        parse_i32(rest).is_some()
    } else {
        true
    }
}

/// Whether a directory entry is a data file to process: a file whose
/// extension is the data files' extension.
pub fn selects_entry(is_file: bool, extension: Option<&str>, data_ext: &str) -> (b: bool)
    ensures
        b == (is_file && (extension matches Some(e) && e@ == data_ext@)),
{
    match extension {
        Some(e) => is_file && str_equal(e, data_ext),
        None => false,
    }
}

/// Whether extraction goes on to the next file after this outcome: only
/// after a file was processed; it stops at the first file that failed or
/// was not recognized.
pub fn keeps_going(result: &ProcessResult) -> (b: bool)
    ensures
        b == (*result is Processed),
{
    match result {
        ProcessResult::Processed => true,
        _ => false,
    }
}

/// Entry `i` adds its name, under `Actor:{i}:name`, unless it is blank, after
/// what the entries before it add; an empty list adds nothing.
pub proof fn lemma_actors_each(s: Seq<Actor>, i: int)
    requires
        0 <= i < s.len(),
    ensures
        actors_output(s.take(0)) == Seq::<ExtractedView>::empty(),
        actors_output(s.take(i + 1)) == actors_output(s.take(i)) + (if has_visible_text(s[i].name@) {
            seq![ExtractedView::Text(GameStringView { location: "Actor:"@ + decimal(i as nat) + ":name"@, text: s[i].name@ })]
        } else {
            seq![]
        }),
{
    lemma_concat_map_take(s, i, |i: int, x: Actor| kept(x.name@, indexed("Actor:"@, i, ":name"@)));
}

/// Entry `i` adds its name, under `Animation:{i}:name`, unless it is blank, after
/// what the entries before it add; an empty list adds nothing.
pub proof fn lemma_animations_each(s: Seq<Animation>, i: int)
    requires
        0 <= i < s.len(),
    ensures
        animations_output(s.take(0)) == Seq::<ExtractedView>::empty(),
        animations_output(s.take(i + 1)) == animations_output(s.take(i)) + (if has_visible_text(s[i].name@) {
            seq![ExtractedView::Text(GameStringView { location: "Animation:"@ + decimal(i as nat) + ":name"@, text: s[i].name@ })]
        } else {
            seq![]
        }),
{
    lemma_concat_map_take(s, i, |i: int, x: Animation| kept(x.name@, indexed("Animation:"@, i, ":name"@)));
}

/// Entry `i` adds its name, under `Class:{i}:name`, unless it is blank, after
/// what the entries before it add; an empty list adds nothing.
pub proof fn lemma_classes_each(s: Seq<Class>, i: int)
    requires
        0 <= i < s.len(),
    ensures
        classes_output(s.take(0)) == Seq::<ExtractedView>::empty(),
        classes_output(s.take(i + 1)) == classes_output(s.take(i)) + (if has_visible_text(s[i].name@) {
            seq![ExtractedView::Text(GameStringView { location: "Class:"@ + decimal(i as nat) + ":name"@, text: s[i].name@ })]
        } else {
            seq![]
        }),
{
    lemma_concat_map_take(s, i, |i: int, x: Class| kept(x.name@, indexed("Class:"@, i, ":name"@)));
}

/// Entry `i` adds its name, under `Enemy:{i}:name`, unless it is blank, after
/// what the entries before it add; an empty list adds nothing.
pub proof fn lemma_enemies_each(s: Seq<Enemy>, i: int)
    requires
        0 <= i < s.len(),
    ensures
        enemies_output(s.take(0)) == Seq::<ExtractedView>::empty(),
        enemies_output(s.take(i + 1)) == enemies_output(s.take(i)) + (if has_visible_text(s[i].name@) {
            seq![ExtractedView::Text(GameStringView { location: "Enemy:"@ + decimal(i as nat) + ":name"@, text: s[i].name@ })]
        } else {
            seq![]
        }),
{
    lemma_concat_map_take(s, i, |i: int, x: Enemy| kept(x.name@, indexed("Enemy:"@, i, ":name"@)));
}

/// Entry `i` adds its name, under `State:{i}:name`, unless it is blank, after
/// what the entries before it add; an empty list adds nothing.
pub proof fn lemma_states_each(s: Seq<State>, i: int)
    requires
        0 <= i < s.len(),
    ensures
        states_output(s.take(0)) == Seq::<ExtractedView>::empty(),
        states_output(s.take(i + 1)) == states_output(s.take(i)) + (if has_visible_text(s[i].name@) {
            seq![ExtractedView::Text(GameStringView { location: "State:"@ + decimal(i as nat) + ":name"@, text: s[i].name@ })]
        } else {
            seq![]
        }),
{
    lemma_concat_map_take(s, i, |i: int, x: State| kept(x.name@, indexed("State:"@, i, ":name"@)));
}

/// Entry `i` adds its name, under `Tileset:{i}:name`, unless it is blank, after
/// what the entries before it add; an empty list adds nothing.
pub proof fn lemma_tilesets_each(s: Seq<Tileset>, i: int)
    requires
        0 <= i < s.len(),
    ensures
        tilesets_output(s.take(0)) == Seq::<ExtractedView>::empty(),
        tilesets_output(s.take(i + 1)) == tilesets_output(s.take(i)) + (if has_visible_text(s[i].name@) {
            seq![ExtractedView::Text(GameStringView { location: "Tileset:"@ + decimal(i as nat) + ":name"@, text: s[i].name@ })]
        } else {
            seq![]
        }),
{
    lemma_concat_map_take(s, i, |i: int, x: Tileset| kept(x.name@, indexed("Tileset:"@, i, ":name"@)));
}

/// Entry `i` adds its name under `Armor:{i}:name`, then its description right
/// after under `Armor:{i}:description`, each unless blank, after what the
/// entries before it add; an empty list adds nothing.
pub proof fn lemma_armors_each(s: Seq<Armor>, i: int)
    requires
        0 <= i < s.len(),
    ensures
        armors_output(s.take(0)) == Seq::<ExtractedView>::empty(),
        armors_output(s.take(i + 1)) == armors_output(s.take(i)) + (if has_visible_text(s[i].name@) {
            seq![ExtractedView::Text(GameStringView { location: "Armor:"@ + decimal(i as nat) + ":name"@, text: s[i].name@ })]
        } else {
            seq![]
        }) + (if has_visible_text(s[i].description@) {
            seq![ExtractedView::Text(GameStringView { location: "Armor:"@ + decimal(i as nat) + ":description"@, text: s[i].description@ })]
        } else {
            seq![]
        }),
{
    lemma_concat_map_take(s, i, |i: int, x: Armor| armor_output(i, x));
}

/// Entry `i` adds its name under `Item:{i}:name`, then its description right
/// after under `Item:{i}:description`, each unless blank, after what the
/// entries before it add; an empty list adds nothing.
pub proof fn lemma_items_each(s: Seq<Item>, i: int)
    requires
        0 <= i < s.len(),
    ensures
        items_output(s.take(0)) == Seq::<ExtractedView>::empty(),
        items_output(s.take(i + 1)) == items_output(s.take(i)) + (if has_visible_text(s[i].name@) {
            seq![ExtractedView::Text(GameStringView { location: "Item:"@ + decimal(i as nat) + ":name"@, text: s[i].name@ })]
        } else {
            seq![]
        }) + (if has_visible_text(s[i].description@) {
            seq![ExtractedView::Text(GameStringView { location: "Item:"@ + decimal(i as nat) + ":description"@, text: s[i].description@ })]
        } else {
            seq![]
        }),
{
    lemma_concat_map_take(s, i, |i: int, x: Item| item_output(i, x));
}

/// Entry `i` adds its name under `Skill:{i}:name`, then its description right
/// after under `Skill:{i}:description`, each unless blank, after what the
/// entries before it add; an empty list adds nothing.
pub proof fn lemma_skills_each(s: Seq<Skill>, i: int)
    requires
        0 <= i < s.len(),
    ensures
        skills_output(s.take(0)) == Seq::<ExtractedView>::empty(),
        skills_output(s.take(i + 1)) == skills_output(s.take(i)) + (if has_visible_text(s[i].name@) {
            seq![ExtractedView::Text(GameStringView { location: "Skill:"@ + decimal(i as nat) + ":name"@, text: s[i].name@ })]
        } else {
            seq![]
        }) + (if has_visible_text(s[i].description@) {
            seq![ExtractedView::Text(GameStringView { location: "Skill:"@ + decimal(i as nat) + ":description"@, text: s[i].description@ })]
        } else {
            seq![]
        }),
{
    lemma_concat_map_take(s, i, |i: int, x: Skill| skill_output(i, x));
}

/// Entry `i` adds its name under `Weapon:{i}:name`, then its description right
/// after under `Weapon:{i}:description`, each unless blank, after what the
/// entries before it add; an empty list adds nothing.
pub proof fn lemma_weapons_each(s: Seq<Weapon>, i: int)
    requires
        0 <= i < s.len(),
    ensures
        weapons_output(s.take(0)) == Seq::<ExtractedView>::empty(),
        weapons_output(s.take(i + 1)) == weapons_output(s.take(i)) + (if has_visible_text(s[i].name@) {
            seq![ExtractedView::Text(GameStringView { location: "Weapon:"@ + decimal(i as nat) + ":name"@, text: s[i].name@ })]
        } else {
            seq![]
        }) + (if has_visible_text(s[i].description@) {
            seq![ExtractedView::Text(GameStringView { location: "Weapon:"@ + decimal(i as nat) + ":description"@, text: s[i].description@ })]
        } else {
            seq![]
        }),
{
    lemma_concat_map_take(s, i, |i: int, x: Weapon| weapon_output(i, x));
}

/// Name `i` of a list of the system data is added under `kind{i}:name`,
/// unless it is blank, after the names before it; the system data adds its
/// element names, then its switch names, then its variable names.
pub proof fn lemma_names_each(names: Seq<String>, kind: Seq<char>, i: int)
    requires
        0 <= i < names.len(),
    ensures
        names_output(names.take(0), kind) == Seq::<ExtractedView>::empty(),
        names_output(names.take(i + 1), kind) == names_output(names.take(i), kind) + (if has_visible_text(names[i]@) {
            seq![ExtractedView::Text(GameStringView { location: kind + decimal(i as nat) + ":name"@, text: names[i]@ })]
        } else {
            seq![]
        }),
        forall|sys: System| #[trigger] system_output(sys) == names_output(sys.elements@, "Element:"@)
            + names_output(sys.switches@, "Switch:"@) + names_output(sys.variables@, "Variable:"@),
{
    lemma_concat_map_take(names, i, |i: int, t: String| kept(t@, indexed(kind, i, ":name"@)));
}

/// Troop `i` adds its name under `Troop:{i}:name` unless blank, then the
/// command list of each of its pages in order, page `p` under the context
/// `Troop:{i}:page:{p}`.
pub proof fn lemma_troops_each(s: Seq<Troop>, i: int, p: int)
    requires
        0 <= i < s.len(),
        0 <= p < s[i].pages@.len(),
    ensures
        troops_output(s.take(0)) == Seq::<ExtractedView>::empty(),
        troops_output(s.take(i + 1)) == troops_output(s.take(i)) + (if has_visible_text(s[i].name@) {
            seq![ExtractedView::Text(GameStringView { location: "Troop:"@ + decimal(i as nat) + ":name"@, text: s[i].name@ })]
        } else {
            seq![]
        }) + pages_output(s[i].pages@, "Troop:"@ + decimal(i as nat) + ":page:"@),
        pages_output(s[i].pages@.take(0), "Troop:"@ + decimal(i as nat) + ":page:"@) == Seq::<ExtractedView>::empty(),
        pages_output(s[i].pages@.take(p + 1), "Troop:"@ + decimal(i as nat) + ":page:"@)
            == pages_output(s[i].pages@.take(p), "Troop:"@ + decimal(i as nat) + ":page:"@)
            + commands_output(s[i].pages@[p].list@, 0, "Troop:"@ + decimal(i as nat) + ":page:"@ + decimal(p as nat)),
{
    lemma_concat_map_take(s, i, |i: int, t: Troop| troop_output(i, t));
    let prefix = "Troop:"@ + decimal(i as nat) + ":page:"@;
    lemma_concat_map_take(s[i].pages@, p, |p: int, page: TroopPage| commands_output(page.list@, 0, prefix + decimal(p as nat)));
}

/// Entry `k` of the map infos adds the map's name under `Map:{id}:name`,
/// unless blank, after the entries before it.
pub proof fn lemma_mapinfos_each(s: Seq<(usize, MapInfo)>, k: int)
    requires
        0 <= k < s.len(),
    ensures
        mapinfos_output(s.take(0)) == Seq::<ExtractedView>::empty(),
        mapinfos_output(s.take(k + 1)) == mapinfos_output(s.take(k)) + (if has_visible_text(s[k].1.name@) {
            seq![ExtractedView::Text(GameStringView { location: "Map:"@ + decimal(s[k].0 as nat) + ":name"@, text: s[k].1.name@ })]
        } else {
            seq![]
        }),
{
    lemma_concat_map_take(s, k, |k: int, e: (usize, MapInfo)| mapinfo_output(e));
}

/// Common event `i` adds its name under `CommonEvent:{i}:name` unless blank,
/// then its command list under the context `CommonEvent:{i}`.
pub proof fn lemma_commonevents_each(s: Seq<CommonEvent>, i: int)
    requires
        0 <= i < s.len(),
    ensures
        commonevents_output(s.take(0)) == Seq::<ExtractedView>::empty(),
        commonevents_output(s.take(i + 1)) == commonevents_output(s.take(i)) + (if has_visible_text(s[i].name@) {
            seq![ExtractedView::Text(GameStringView { location: "CommonEvent:"@ + decimal(i as nat) + ":name"@, text: s[i].name@ })]
        } else {
            seq![]
        }) + commands_output(s[i].list@, 0, "CommonEvent:"@ + decimal(i as nat)),
{
    lemma_concat_map_take(s, i, |i: int, e: CommonEvent| commonevent_output(i, e));
}

/// Script `k` hands on its whole source under `Script:{name}`, after the
/// scripts before it.
pub proof fn lemma_scripts_each(s: Seq<Script>, k: int)
    requires
        0 <= k < s.len(),
    ensures
        scripts_output(s.take(0)) == Seq::<ExtractedView>::empty(),
        scripts_output(s.take(k + 1)) == scripts_output(s.take(k)) + seq![
            ExtractedView::Script(GameStringView { location: "Script:"@ + s[k].name@, text: s[k].text@ }),
        ],
{
    lemma_concat_map_take(s, k, |k: int, x: Script| seq![script_item("Script:"@ + x.name@, x.text@)]);
}

/// Every page of an event adds, in order, the text of its command list under
/// the context `{prefix}:page:{p}`, then the scripts of its move route under
/// `{prefix}:page:{p}:route`; no page is left out.
pub proof fn lemma_event_pages_each(prefix: Seq<char>, pages: Seq<EventPage>, p: int)
    requires
        0 <= p < pages.len(),
    ensures
        event_pages_output(prefix, pages.take(0)) == Seq::<ExtractedView>::empty(),
        event_pages_output(prefix, pages.take(p + 1)) == event_pages_output(prefix, pages.take(p))
            + commands_output(pages[p].list@, 0, prefix + ":page:"@ + decimal(p as nat))
            + route_output(pages[p].move_route, prefix + ":page:"@ + decimal(p as nat) + ":route"@),
{
    lemma_concat_map_take(pages, p, |p: int, page: EventPage| event_page_output(prefix, p, page));
    assert(event_pages_output(prefix, pages.take(p + 1)) =~= event_pages_output(prefix, pages.take(p))
        + commands_output(pages[p].list@, 0, prefix + ":page:"@ + decimal(p as nat))
        + route_output(pages[p].move_route, prefix + ":page:"@ + decimal(p as nat) + ":route"@));
}

/// Event `k` of a map adds its name under `Map:{map_id}:event:{id}:name`
/// unless blank, then all of its pages under `Map:{map_id}:event:{id}`, after
/// the events before it.
pub proof fn lemma_map_events_each(map: GameMap, map_id: i32, k: int)
    requires
        0 <= k < map.events@.len(),
    ensures
        ({
            let (id, ev) = map.events@[k];
            let prefix = "Map:"@ + decimal_int(map_id as int) + ":event:"@ + decimal(id as nat);
            concat_map(map.events@.take(k + 1), |k: int, e: (usize, Event)| event_output(map_id, e.0, e.1))
                == concat_map(map.events@.take(k), |k: int, e: (usize, Event)| event_output(map_id, e.0, e.1))
                + (if has_visible_text(ev.name@) {
            seq![ExtractedView::Text(GameStringView { location: prefix + ":name"@, text: ev.name@ })]
        } else {
            seq![]
        }) + event_pages_output(prefix, ev.pages@)
        }),
        map_output(map, map_id) == concat_map(map.events@.take(map.events@.len() as int), |k: int, e: (usize, Event)| event_output(map_id, e.0, e.1)),
{
    lemma_concat_map_take(map.events@, k, |k: int, e: (usize, Event)| event_output(map_id, e.0, e.1));
    assert(map.events@.take(map.events@.len() as int) =~= map.events@);
}

/// The data file names: each database file by its exact name, `Scripts` and
/// `xScripts` for the scripts, `Map` followed by an id for a map; a name
/// that is none of these and does not start with `Map` names no data file.
pub proof fn lemma_data_file_names(name: Seq<char>)
    ensures
        data_file_spec("Actors"@) == Some(DataFile::Actors),
        data_file_spec("Animations"@) == Some(DataFile::Animations),
        data_file_spec("Armors"@) == Some(DataFile::Armors),
        data_file_spec("Classes"@) == Some(DataFile::Classes),
        data_file_spec("Enemies"@) == Some(DataFile::Enemies),
        data_file_spec("Items"@) == Some(DataFile::Items),
        data_file_spec("Skills"@) == Some(DataFile::Skills),
        data_file_spec("States"@) == Some(DataFile::States),
        data_file_spec("System"@) == Some(DataFile::System),
        data_file_spec("Tilesets"@) == Some(DataFile::Tilesets),
        data_file_spec("Troops"@) == Some(DataFile::Troops),
        data_file_spec("Weapons"@) == Some(DataFile::Weapons),
        data_file_spec("MapInfos"@) == Some(DataFile::MapInfos),
        data_file_spec("CommonEvents"@) == Some(DataFile::CommonEvents),
        data_file_spec("Scripts"@) == Some(DataFile::Scripts),
        data_file_spec("xScripts"@) == Some(DataFile::Scripts),
        !is_map_name(name) && name != "Scripts"@ && name != "xScripts"@
            && name != "Actors"@ && name != "Animations"@ && name != "Armors"@ && name != "Classes"@ && name != "Enemies"@ && name != "Items"@ && name != "Skills"@ && name != "States"@ && name != "System"@ && name != "Tilesets"@ && name != "Troops"@ && name != "Weapons"@ && name != "MapInfos"@ && name != "CommonEvents"@
            ==> data_file_spec(name) is None,
        is_map_name(name) <==> (name.len() >= 3 && name[0] == 'M' && name[1] == 'a' && name[2] == 'p'),
{
    reveal_strlit("Actors");
    reveal_strlit("Animations");
    reveal_strlit("Armors");
    reveal_strlit("Classes");
    reveal_strlit("Enemies");
    reveal_strlit("Items");
    reveal_strlit("Skills");
    reveal_strlit("States");
    reveal_strlit("System");
    reveal_strlit("Tilesets");
    reveal_strlit("Troops");
    reveal_strlit("Weapons");
    reveal_strlit("MapInfos");
    reveal_strlit("CommonEvents");
    reveal_strlit("Scripts");
    reveal_strlit("xScripts");
    reveal_strlit("Map");
    assert("Animations"@.len() != "Actors"@.len());
    assert("Armors"@[1] != "Actors"@[1]);
    assert("Armors"@.len() != "Animations"@.len());
    assert("Classes"@.len() != "Actors"@.len());
    assert("Classes"@.len() != "Animations"@.len());
    assert("Classes"@.len() != "Armors"@.len());
    assert("Enemies"@.len() != "Actors"@.len());
    assert("Enemies"@.len() != "Animations"@.len());
    assert("Enemies"@.len() != "Armors"@.len());
    assert("Enemies"@[0] != "Classes"@[0]);
    assert("Items"@.len() != "Actors"@.len());
    assert("Items"@.len() != "Animations"@.len());
    assert("Items"@.len() != "Armors"@.len());
    assert("Items"@.len() != "Classes"@.len());
    assert("Items"@.len() != "Enemies"@.len());
    assert("Skills"@[0] != "Actors"@[0]);
    assert("Skills"@.len() != "Animations"@.len());
    assert("Skills"@[0] != "Armors"@[0]);
    assert("Skills"@.len() != "Classes"@.len());
    assert("Skills"@.len() != "Enemies"@.len());
    assert("Skills"@.len() != "Items"@.len());
    assert("States"@[0] != "Actors"@[0]);
    assert("States"@.len() != "Animations"@.len());
    assert("States"@[0] != "Armors"@[0]);
    assert("States"@.len() != "Classes"@.len());
    assert("States"@.len() != "Enemies"@.len());
    assert("States"@.len() != "Items"@.len());
    assert("States"@[1] != "Skills"@[1]);
    assert("System"@[0] != "Actors"@[0]);
    assert("System"@.len() != "Animations"@.len());
    assert("System"@[0] != "Armors"@[0]);
    assert("System"@.len() != "Classes"@.len());
    assert("System"@.len() != "Enemies"@.len());
    assert("System"@.len() != "Items"@.len());
    assert("System"@[1] != "Skills"@[1]);
    assert("System"@[1] != "States"@[1]);
    assert("Tilesets"@.len() != "Actors"@.len());
    assert("Tilesets"@.len() != "Animations"@.len());
    assert("Tilesets"@.len() != "Armors"@.len());
    assert("Tilesets"@.len() != "Classes"@.len());
    assert("Tilesets"@.len() != "Enemies"@.len());
    assert("Tilesets"@.len() != "Items"@.len());
    assert("Tilesets"@.len() != "Skills"@.len());
    assert("Tilesets"@.len() != "States"@.len());
    assert("Tilesets"@.len() != "System"@.len());
    assert("Troops"@[0] != "Actors"@[0]);
    assert("Troops"@.len() != "Animations"@.len());
    assert("Troops"@[0] != "Armors"@[0]);
    assert("Troops"@.len() != "Classes"@.len());
    assert("Troops"@.len() != "Enemies"@.len());
    assert("Troops"@.len() != "Items"@.len());
    assert("Troops"@[0] != "Skills"@[0]);
    assert("Troops"@[0] != "States"@[0]);
    assert("Troops"@[0] != "System"@[0]);
    assert("Troops"@.len() != "Tilesets"@.len());
    assert("Weapons"@.len() != "Actors"@.len());
    assert("Weapons"@.len() != "Animations"@.len());
    assert("Weapons"@.len() != "Armors"@.len());
    assert("Weapons"@[0] != "Classes"@[0]);
    assert("Weapons"@[0] != "Enemies"@[0]);
    assert("Weapons"@.len() != "Items"@.len());
    assert("Weapons"@.len() != "Skills"@.len());
    assert("Weapons"@.len() != "States"@.len());
    assert("Weapons"@.len() != "System"@.len());
    assert("Weapons"@.len() != "Tilesets"@.len());
    assert("Weapons"@.len() != "Troops"@.len());
    assert("MapInfos"@.len() != "Actors"@.len());
    assert("MapInfos"@.len() != "Animations"@.len());
    assert("MapInfos"@.len() != "Armors"@.len());
    assert("MapInfos"@.len() != "Classes"@.len());
    assert("MapInfos"@.len() != "Enemies"@.len());
    assert("MapInfos"@.len() != "Items"@.len());
    assert("MapInfos"@.len() != "Skills"@.len());
    assert("MapInfos"@.len() != "States"@.len());
    assert("MapInfos"@.len() != "System"@.len());
    assert("MapInfos"@[0] != "Tilesets"@[0]);
    assert("MapInfos"@.len() != "Troops"@.len());
    assert("MapInfos"@.len() != "Weapons"@.len());
    assert("CommonEvents"@.len() != "Actors"@.len());
    assert("CommonEvents"@.len() != "Animations"@.len());
    assert("CommonEvents"@.len() != "Armors"@.len());
    assert("CommonEvents"@.len() != "Classes"@.len());
    assert("CommonEvents"@.len() != "Enemies"@.len());
    assert("CommonEvents"@.len() != "Items"@.len());
    assert("CommonEvents"@.len() != "Skills"@.len());
    assert("CommonEvents"@.len() != "States"@.len());
    assert("CommonEvents"@.len() != "System"@.len());
    assert("CommonEvents"@.len() != "Tilesets"@.len());
    assert("CommonEvents"@.len() != "Troops"@.len());
    assert("CommonEvents"@.len() != "Weapons"@.len());
    assert("CommonEvents"@.len() != "MapInfos"@.len());
    assert(!is_map_name("Scripts"@)) by {
        assert("Scripts"@.take(3)[0] != "Map"@[0]);
    }
    assert(!is_map_name("xScripts"@)) by {
        assert("xScripts"@.take(3)[0] != "Map"@[0]);
    }
    if name.len() >= 3 && name[0] == 'M' && name[1] == 'a' && name[2] == 'p' {
        assert(name.take(3) =~= "Map"@);
    }
    if is_map_name(name) {
        assert(name.take(3)[0] == name[0]);
        assert(name.take(3)[1] == name[1]);
        assert(name.take(3)[2] == name[2]);
    }
}

/// Which extraction a file's data goes through: each kind of data by its
/// own, a map under the id that its file name gives.
pub proof fn lemma_data_output_kinds(data: GameData)
    ensures
        data matches GameData::Actors(x) ==> data_output(data) == actors_output(x@),
        data matches GameData::Animations(x) ==> data_output(data) == animations_output(x@),
        data matches GameData::Armors(x) ==> data_output(data) == armors_output(x@),
        data matches GameData::Classes(x) ==> data_output(data) == classes_output(x@),
        data matches GameData::Enemies(x) ==> data_output(data) == enemies_output(x@),
        data matches GameData::Items(x) ==> data_output(data) == items_output(x@),
        data matches GameData::Skills(x) ==> data_output(data) == skills_output(x@),
        data matches GameData::States(x) ==> data_output(data) == states_output(x@),
        data matches GameData::System(x) ==> data_output(data) == system_output(x),
        data matches GameData::Tilesets(x) ==> data_output(data) == tilesets_output(x@),
        data matches GameData::Troops(x) ==> data_output(data) == troops_output(x@),
        data matches GameData::Weapons(x) ==> data_output(data) == weapons_output(x@),
        data matches GameData::MapInfos(x) ==> data_output(data) == mapinfos_output(x@),
        data matches GameData::CommonEvents(x) ==> data_output(data) == commonevents_output(x@),
        data matches GameData::MapFile(m, id) ==> data_output(data) == map_output(m, id),
        data matches GameData::Scripts(x) ==> data_output(data) == scripts_output(x@),
{
}

} // verus!
