use rpgtool::events::{
    commands_are_well_formed, process_eventcommands, process_move_route, read_multi_text,
    route_is_well_formed, string_parameter_at, int_parameter_at, array_parameter_at,
    route_parameter_at,
};
use rpgtool::found::{Extracted, GameString};
use rpgtool::model::{EventCommand, MoveCommand, MoveRoute, ParameterType};

fn s(t: &str) -> ParameterType {
    ParameterType::String(t.to_string())
}

fn cmd(code: u16, parameters: Vec<ParameterType>) -> EventCommand {
    EventCommand { code, parameters }
}

fn flat(found: &[Extracted]) -> Vec<(bool, String, String)> {
    found
        .iter()
        .map(|e| match e {
            Extracted::Text(GameString { location, text }) => (false, location.clone(), text.clone()),
            Extracted::Script(GameString { location, text }) => (true, location.clone(), text.clone()),
        })
        .collect()
}

fn t(loc: &str, text: &str) -> (bool, String, String) {
    (false, loc.to_string(), text.to_string())
}

fn sc(loc: &str, text: &str) -> (bool, String, String) {
    (true, loc.to_string(), text.to_string())
}

#[test]
fn parameter_lookup() {
    let params = vec![s("a"), ParameterType::Integer(12), ParameterType::Other];
    assert_eq!(string_parameter_at(&params, 0), Some("a"));
    assert_eq!(string_parameter_at(&params, 1), None);
    assert_eq!(string_parameter_at(&params, 9), None);
    assert_eq!(int_parameter_at(&params, 1), Some(12));
    assert_eq!(int_parameter_at(&params, 0), None);
    assert!(array_parameter_at(&params, 2).is_none());
    assert!(route_parameter_at(&params, 2).is_none());
    let arr = vec![ParameterType::Array(vec![s("x")])];
    assert_eq!(array_parameter_at(&arr, 0).map(|a| a.len()), Some(1));
}

#[test]
fn show_text_joins_its_continuation_lines() {
    let cmds = vec![
        cmd(101, vec![s("Hello")]),
        cmd(401, vec![s("there")]),
        cmd(401, vec![s("friend")]),
        cmd(0, vec![]),
    ];
    let (text, next) = read_multi_text(&cmds, 0, 401);
    assert_eq!(text, "Hello there friend");
    assert_eq!(next, 3);
    let mut found = Vec::new();
    assert!(commands_are_well_formed(&cmds));
    process_eventcommands(cmds, &mut found, "CommonEvent:3");
    assert_eq!(flat(&found), vec![t("CommonEvent:3:cmd:0:text", "Hello there friend")]);
}

#[test]
fn every_command_kind() {
    let route = MoveRoute {
        list: vec![
            MoveCommand { code: 1, parameters: vec![] },
            MoveCommand { code: 45, parameters: vec![s("p 1")] },
        ],
    };
    let cmds = vec![
        cmd(102, vec![ParameterType::Array(vec![s("Yes"), s("No")]), ParameterType::Integer(2)]),
        cmd(108, vec![s("note")]),
        cmd(408, vec![s("more")]),
        cmd(111, vec![ParameterType::Integer(12), s("$game_switches[1]")]),
        cmd(111, vec![ParameterType::Integer(0), ParameterType::Integer(1)]),
        cmd(118, vec![s("start")]),
        cmd(119, vec![s("start")]),
        cmd(209, vec![ParameterType::Integer(-1), ParameterType::MoveRoute(route)]),
        cmd(320, vec![ParameterType::Integer(1), s("Aluxes")]),
        cmd(355, vec![s("a = 1")]),
        cmd(655, vec![s("b = 2")]),
        cmd(401, vec![s("lonely")]),
        cmd(412, vec![]),
    ];
    assert!(commands_are_well_formed(&cmds));
    let mut found = vec![Extracted::Text(GameString { location: "before".to_string(), text: "kept".to_string() })];
    process_eventcommands(cmds, &mut found, "Map:1:event:2:page:0");
    assert_eq!(
        flat(&found),
        vec![
            t("before", "kept"),
            t("Map:1:event:2:page:0:cmd:0:choice:0", "Yes"),
            t("Map:1:event:2:page:0:cmd:0:choice:1", "No"),
            t("Map:1:event:2:page:0:cmd:1:comment", "note more"),
            sc("Map:1:event:2:page:0:cmd:3:branch:script", "$game_switches[1]"),
            t("Map:1:event:2:page:0:cmd:5:label", "start"),
            t("Map:1:event:2:page:0:cmd:6:goto label", "start"),
            sc("Map:1:event:2:page:0:cmd:7:route:movecmd:1:script", "p 1"),
            t("Map:1:event:2:page:0:cmd:8:actor name", "Aluxes"),
            sc("Map:1:event:2:page:0:cmd:9:script", "a = 1 b = 2"),
        ]
    );
}

#[test]
fn event_strings_are_kept_even_when_blank() {
    let cmds = vec![cmd(101, vec![s("  ")]), cmd(118, vec![s("")])];
    let mut found = Vec::new();
    process_eventcommands(cmds, &mut found, "c");
    assert_eq!(flat(&found), vec![t("c:cmd:0:text", "  "), t("c:cmd:1:label", "")]);
}

#[test]
fn ill_formed_commands_are_detected() {
    assert!(!commands_are_well_formed(&vec![cmd(101, vec![])]));
    assert!(!commands_are_well_formed(&vec![cmd(101, vec![s("a")]), cmd(401, vec![ParameterType::Integer(3)])]));
    assert!(!commands_are_well_formed(&vec![cmd(102, vec![ParameterType::Array(vec![ParameterType::Other])])]));
    assert!(!commands_are_well_formed(&vec![cmd(102, vec![s("not an array")])]));
    assert!(!commands_are_well_formed(&vec![cmd(111, vec![ParameterType::Integer(12)])]));
    assert!(!commands_are_well_formed(&vec![cmd(118, vec![])]));
    assert!(!commands_are_well_formed(&vec![cmd(209, vec![ParameterType::Integer(0)])]));
    assert!(!commands_are_well_formed(&vec![cmd(320, vec![s("only one")])]));
    assert!(!commands_are_well_formed(&vec![cmd(355, vec![s("x")]), cmd(655, vec![])]));
    // A continuation line that no command before it consumes is never read.
    assert!(commands_are_well_formed(&vec![cmd(401, vec![]), cmd(655, vec![])]));
    assert!(commands_are_well_formed(&vec![cmd(111, vec![ParameterType::Integer(11)])]));
}

#[test]
fn move_route_scripts() {
    let route = MoveRoute {
        list: vec![
            MoveCommand { code: 45, parameters: vec![s("x")] },
            MoveCommand { code: 44, parameters: vec![] },
            MoveCommand { code: 45, parameters: vec![s("y")] },
        ],
    };
    assert!(route_is_well_formed(&route));
    let mut found = Vec::new();
    process_move_route(&route, &mut found, "ctx");
    assert_eq!(flat(&found), vec![sc("ctx:movecmd:0:script", "x"), sc("ctx:movecmd:2:script", "y")]);
    let bad = MoveRoute { list: vec![MoveCommand { code: 45, parameters: vec![] }] };
    assert!(!route_is_well_formed(&bad));
}

#[test]
fn as_str_of_parameters() {
    assert_eq!(s("q").as_str(), Some("q"));
    assert_eq!(ParameterType::Integer(1).as_str(), None);
}

#[test]
fn command_locations_stand_under_the_context() {
    let route = MoveRoute { list: vec![MoveCommand { code: 45, parameters: vec![s("x")] }] };
    let cmds = vec![
        cmd(101, vec![s("a")]),
        cmd(102, vec![ParameterType::Array(vec![s("b"), s("c")])]),
        cmd(209, vec![ParameterType::Other, ParameterType::MoveRoute(route)]),
        cmd(355, vec![s("d")]),
    ];
    let mut found = Vec::new();
    process_eventcommands(cmds, &mut found, "Troop:4:page:2");
    assert_eq!(found.len(), 5);
    for (_, loc, _) in flat(&found) {
        assert!(loc.starts_with("Troop:4:page:2:cmd:"), "{}", loc);
    }
}

#[test]
fn each_location_names_its_command_in_order() {
    let cmds = vec![
        cmd(108, vec![s("a")]),
        cmd(408, vec![s("b")]),
        cmd(0, vec![]),
        cmd(102, vec![ParameterType::Array(vec![s("x"), s("y")])]),
        cmd(355, vec![s("c")]),
        cmd(655, vec![s("d")]),
        cmd(118, vec![s("e")]),
    ];
    let mut found = Vec::new();
    process_eventcommands(cmds, &mut found, "ctx");
    let heads: Vec<usize> = flat(&found)
        .iter()
        .map(|(_, loc, _)| loc.strip_prefix("ctx:cmd:").unwrap().split(':').next().unwrap().parse().unwrap())
        .collect();
    assert_eq!(heads, vec![0, 3, 3, 4, 6]);
}

#[test]
fn context_only_prefixes_locations() {
    let make = || vec![cmd(101, vec![s("a")]), cmd(320, vec![ParameterType::Integer(1), s("b")])];
    let mut short = Vec::new();
    process_eventcommands(make(), &mut short, "X");
    let mut long = Vec::new();
    process_eventcommands(make(), &mut long, "Pre:X");
    let (short, long) = (flat(&short), flat(&long));
    assert_eq!(short.len(), long.len());
    for (a, b) in short.iter().zip(long.iter()) {
        assert_eq!(format!("Pre:{}", a.1), b.1);
        assert_eq!(a.2, b.2);
    }
}
