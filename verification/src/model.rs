//! The game data that extraction reads, holding as plain values what the
//! extraction looks at. Parts of RPG Maker XP's data that no extraction reads
//! (graphics, sounds, numbers of battle stats, ...) are not held.

use vstd::prelude::*;

verus! {

/// A parameter of an event command or of a move command.
pub enum ParameterType {
    Integer(i32),
    String(String),
    MoveRoute(MoveRoute),
    Array(Vec<ParameterType>),
    /// A parameter of a kind that extraction never reads (a colour, a tone,
    /// an audio file, a float, a boolean or nil).
    Other,
}

/// One command of a move route.
pub struct MoveCommand {
    pub code: u16,
    pub parameters: Vec<ParameterType>,
}

/// A move route: the commands that a character follows.
pub struct MoveRoute {
    pub list: Vec<MoveCommand>,
}

/// One command of an event's command list.
pub struct EventCommand {
    pub code: u16,
    pub parameters: Vec<ParameterType>,
}

pub struct Actor {
    pub name: String,
}

pub struct Animation {
    pub name: String,
}

pub struct Armor {
    pub name: String,
    pub description: String,
}

pub struct Class {
    pub name: String,
}

pub struct Enemy {
    pub name: String,
}

pub struct Item {
    pub name: String,
    pub description: String,
}

pub struct Skill {
    pub name: String,
    pub description: String,
}

pub struct State {
    pub name: String,
}

/// The system data: the names of elements, switches and variables.
pub struct System {
    pub elements: Vec<String>,
    pub switches: Vec<String>,
    pub variables: Vec<String>,
}

pub struct Tileset {
    pub name: String,
}

pub struct TroopPage {
    pub list: Vec<EventCommand>,
}

pub struct Troop {
    pub name: String,
    pub pages: Vec<TroopPage>,
}

pub struct Weapon {
    pub name: String,
    pub description: String,
}

pub struct MapInfo {
    pub name: String,
}

pub struct CommonEvent {
    pub name: String,
    pub list: Vec<EventCommand>,
}

pub struct EventPage {
    pub list: Vec<EventCommand>,
    pub move_route: MoveRoute,
}

pub struct Event {
    pub name: String,
    pub pages: Vec<EventPage>,
}

/// A map: its events, each under its id, in the order the map holds them.
pub struct GameMap {
    pub events: Vec<(usize, Event)>,
}

/// A script of the game's script list.
pub struct Script {
    pub name: String,
    pub text: String,
}

} // verus!
