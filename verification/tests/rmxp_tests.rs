use rpgtool::found::{add_string, process_script_text, Extracted, GameString};
use rpgtool::model::{
    Actor, Armor, CommonEvent, Event, EventCommand, EventPage, GameMap, MapInfo, MoveCommand,
    MoveRoute, ParameterType, Script, System, Troop, TroopPage, Weapon,
};
use rpgtool::rmxp::{
    classify_data_file, data_file_name_is_valid, data_is_well_formed, process, process_actors,
    process_armors, process_commonevents, process_map, process_mapinfos, process_scripts,
    process_system, process_troops, process_weapons, DataFile, GameData, ProcessResult,
    selects_entry, keeps_going,
};

fn flat(found: &[Extracted]) -> Vec<(bool, String, String)> {
    found
        .iter()
        .map(|e| match e {
            Extracted::Text(GameString { location, text }) => (false, location.clone(), text.clone()),
            Extracted::Script(GameString { location, text }) => (true, location.clone(), text.clone()),
        })
        .collect()
}

fn t(loc: &str, text: &str) -> (bool, String, String) {
    (false, loc.to_string(), text.to_string())
}

fn sc(loc: &str, text: &str) -> (bool, String, String) {
    (true, loc.to_string(), text.to_string())
}

fn name(n: &str) -> String {
    n.to_string()
}

#[test]
fn add_string_skips_blank_text() {
    let mut found = Vec::new();
    add_string(&mut found, name(""), name("a"));
    add_string(&mut found, name(" \u{3000}\t"), name("b"));
    add_string(&mut found, name(" x "), name("c"));
    assert_eq!(flat(&found), vec![t("c", " x ")]);
}

#[test]
fn script_text_is_handed_on_whole() {
    let mut found = Vec::new();
    process_script_text(name("p 'hi'"), &mut found, name("Script:Main"));
    assert_eq!(flat(&found), vec![sc("Script:Main", "p 'hi'")]);
}

#[test]
fn actors_by_index() {
    let actors = vec![Actor { name: name("") }, Actor { name: name("Aluxes") }, Actor { name: name("Basil") }];
    let mut found = Vec::new();
    process_actors(actors, &mut found);
    assert_eq!(flat(&found), vec![t("Actor:1:name", "Aluxes"), t("Actor:2:name", "Basil")]);
}

#[test]
fn armors_and_weapons_name_then_description() {
    let mut found = Vec::new();
    process_armors(
        vec![Armor { name: name("Shield"), description: name("Blocks.") }, Armor { name: name("Cap"), description: name(" ") }],
        &mut found,
    );
    process_weapons(vec![Weapon { name: name("Sword"), description: name("Sharp.") }], &mut found);
    assert_eq!(
        flat(&found),
        vec![
            t("Armor:0:name", "Shield"),
            t("Armor:0:description", "Blocks."),
            t("Armor:1:name", "Cap"),
            t("Weapon:0:name", "Sword"),
            t("Weapon:0:description", "Sharp."),
        ]
    );
}

#[test]
fn system_names() {
    let system = System {
        elements: vec![name(""), name("Fire")],
        switches: vec![name(""), name("Door open")],
        variables: vec![name("Gold count")],
    };
    let mut found = Vec::new();
    process_system(system, &mut found);
    assert_eq!(
        flat(&found),
        vec![t("Element:1:name", "Fire"), t("Switch:1:name", "Door open"), t("Variable:0:name", "Gold count")]
    );
}

#[test]
fn troops_pages_under_their_context() {
    let troops = vec![Troop {
        name: name("Ghosts"),
        pages: vec![
            TroopPage { list: vec![] },
            TroopPage { list: vec![EventCommand { code: 101, parameters: vec![ParameterType::String(name("Boo"))] }] },
        ],
    }];
    assert!(data_is_well_formed(&GameData::Troops(vec![])));
    let mut found = Vec::new();
    process_troops(troops, &mut found);
    assert_eq!(flat(&found), vec![t("Troop:0:name", "Ghosts"), t("Troop:0:page:1:cmd:0:text", "Boo")]);
}

#[test]
fn mapinfos_by_id() {
    let mut found = Vec::new();
    process_mapinfos(vec![(3, MapInfo { name: name("Town") }), (1, MapInfo { name: name("Field") })], &mut found);
    assert_eq!(flat(&found), vec![t("Map:3:name", "Town"), t("Map:1:name", "Field")]);
}

#[test]
fn common_events() {
    let events = vec![
        CommonEvent { name: name(""), list: vec![] },
        CommonEvent {
            name: name("Heal"),
            list: vec![EventCommand { code: 355, parameters: vec![ParameterType::String(name("heal_all"))] }],
        },
    ];
    let mut found = Vec::new();
    process_commonevents(events, &mut found);
    assert_eq!(
        flat(&found),
        vec![t("CommonEvent:1:name", "Heal"), sc("CommonEvent:1:cmd:0:script", "heal_all")]
    );
}

#[test]
fn map_events_pages_and_routes() {
    let page = EventPage {
        list: vec![EventCommand { code: 118, parameters: vec![ParameterType::String(name("here"))] }],
        move_route: MoveRoute {
            list: vec![MoveCommand { code: 45, parameters: vec![ParameterType::String(name("turn"))] }],
        },
    };
    let map = GameMap { events: vec![(7, Event { name: name("EV007"), pages: vec![page] })] };
    let mut found = Vec::new();
    process_map(map, 12, &mut found);
    assert_eq!(
        flat(&found),
        vec![
            t("Map:12:event:7:name", "EV007"),
            t("Map:12:event:7:page:0:cmd:0:label", "here"),
            sc("Map:12:event:7:page:0:route:movecmd:0:script", "turn"),
        ]
    );
    let mut found = Vec::new();
    process_map(GameMap { events: vec![(0, Event { name: name("E"), pages: vec![] })] }, -3, &mut found);
    assert_eq!(flat(&found), vec![t("Map:-3:event:0:name", "E")]);
}

#[test]
fn scripts_handed_on_by_name() {
    let mut found = Vec::new();
    process_scripts(
        vec![Script { name: name("Main"), text: name("main") }, Script { name: name(""), text: name("") }],
        &mut found,
    );
    assert_eq!(flat(&found), vec![sc("Script:Main", "main"), sc("Script:", "")]);
}

#[test]
fn data_file_names() {
    let cases = [
        ("Actors", DataFile::Actors),
        ("Animations", DataFile::Animations),
        ("Armors", DataFile::Armors),
        ("Classes", DataFile::Classes),
        ("Enemies", DataFile::Enemies),
        ("Items", DataFile::Items),
        ("Skills", DataFile::Skills),
        ("States", DataFile::States),
        ("System", DataFile::System),
        ("Tilesets", DataFile::Tilesets),
        ("Troops", DataFile::Troops),
        ("Weapons", DataFile::Weapons),
        ("MapInfos", DataFile::MapInfos),
        ("CommonEvents", DataFile::CommonEvents),
        ("Scripts", DataFile::Scripts),
        ("xScripts", DataFile::Scripts),
    ];
    for (n, kind) in cases {
        assert!(data_file_name_is_valid(n));
        let got = classify_data_file(n);
        assert!(matches!(got, Some(ref k) if std::mem::discriminant(k) == std::mem::discriminant(&kind)), "{}", n);
    }
    assert!(matches!(classify_data_file("Map001"), Some(DataFile::MapFile(1))));
    assert!(matches!(classify_data_file("Map042"), Some(DataFile::MapFile(42))));
    assert!(matches!(classify_data_file("Map-5"), Some(DataFile::MapFile(-5))));
    assert!(classify_data_file("Tiles").is_none());
    assert!(classify_data_file("actors").is_none());
    assert!(classify_data_file("").is_none());
    assert!(!data_file_name_is_valid("Map"));
    assert!(!data_file_name_is_valid("MapFoo"));
    assert!(!data_file_name_is_valid("Map99999999999"));
    assert!(data_file_name_is_valid("Scripts"));
}

#[test]
fn map_file_name_roundtrip() {
    for id in [0, 1, 42, 999, i32::MAX, -1, i32::MIN] {
        let n = format!("Map{}", id);
        assert!(data_file_name_is_valid(&n));
        match classify_data_file(&n) {
            Some(DataFile::MapFile(got)) => assert_eq!(got, id),
            _ => panic!("{}", n),
        }
    }
}

#[test]
fn process_outcomes() {
    let mut found = vec![Extracted::Text(GameString { location: name("x"), text: name("y") })];
    assert!(matches!(process(None, &mut found), ProcessResult::Unrecognized));
    match process(Some(Err(name("failed to parse"))), &mut found) {
        ProcessResult::Failed(e) => assert_eq!(e, "failed to parse"),
        _ => panic!(),
    }
    assert_eq!(found.len(), 1);
    let r = process(Some(Ok(GameData::Actors(vec![Actor { name: name("A") }]))), &mut found);
    assert!(matches!(r, ProcessResult::Processed));
    assert_eq!(flat(&found), vec![t("x", "y"), t("Actor:0:name", "A")]);
    let r = process(Some(Ok(GameData::MapFile(GameMap { events: vec![] }, 1))), &mut found);
    assert!(matches!(r, ProcessResult::Processed));
    assert_eq!(found.len(), 2);
}

#[test]
fn well_formedness_of_data() {
    let bad = GameData::CommonEvents(vec![CommonEvent {
        name: name("x"),
        list: vec![EventCommand { code: 118, parameters: vec![] }],
    }]);
    assert!(!data_is_well_formed(&bad));
    let bad_map = GameData::MapFile(
        GameMap {
            events: vec![(1, Event {
                name: name("e"),
                pages: vec![EventPage {
                    list: vec![],
                    move_route: MoveRoute { list: vec![MoveCommand { code: 45, parameters: vec![] }] },
                }],
            })],
        },
        1,
    );
    assert!(!data_is_well_formed(&bad_map));
    assert!(data_is_well_formed(&GameData::Actors(vec![])));
}

fn sample_map() -> GameMap {
    let page = EventPage {
        list: vec![
            EventCommand { code: 101, parameters: vec![ParameterType::String(name("Hi"))] },
            EventCommand { code: 401, parameters: vec![ParameterType::String(name("there"))] },
        ],
        move_route: MoveRoute { list: vec![MoveCommand { code: 45, parameters: vec![ParameterType::String(name("go"))] }] },
    };
    GameMap { events: vec![(2, Event { name: name("Guard"), pages: vec![page] }), (5, Event { name: name(""), pages: vec![] })] }
}

#[test]
fn same_map_under_two_ids() {
    let mut a = Vec::new();
    process_map(sample_map(), 1, &mut a);
    let mut b = Vec::new();
    process_map(sample_map(), -20, &mut b);
    let (a, b) = (flat(&a), flat(&b));
    assert_eq!(a.len(), b.len());
    for (x, y) in a.iter().zip(b.iter()) {
        assert_eq!(x.0, y.0);
        assert_eq!(x.2, y.2);
        assert_eq!(x.1.strip_prefix("Map:1:").unwrap(), y.1.strip_prefix("Map:-20:").unwrap());
    }
}

#[test]
fn entry_selection() {
    assert!(selects_entry(true, Some("rxdata"), "rxdata"));
    assert!(!selects_entry(false, Some("rxdata"), "rxdata"));
    assert!(!selects_entry(true, Some("json"), "rxdata"));
    assert!(!selects_entry(true, None, "rxdata"));
}

#[test]
fn stop_at_first_failure() {
    assert!(keeps_going(&ProcessResult::Processed));
    assert!(!keeps_going(&ProcessResult::Failed(name("x"))));
    assert!(!keeps_going(&ProcessResult::Unrecognized));
}
