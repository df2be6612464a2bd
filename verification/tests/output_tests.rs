use rpgtool::found::{Extracted, GameString};
use rpgtool::output::{dedup_strings, gettext_catalogue, gettext_document, plain_script_strings};
use rpgtool::scripts::{interpolated_content, script_literal_string, script_names};

fn g(loc: &str, text: &str) -> GameString {
    GameString { location: loc.to_string(), text: text.to_string() }
}

fn pairs(v: &[GameString]) -> Vec<(String, String)> {
    v.iter().map(|g| (g.location.clone(), g.text.clone())).collect()
}

#[test]
fn gettext_format() {
    let doc = gettext_document(&vec![g("Actor:1:name", "Aluxes"), g("Item:0:name", "Potion")]);
    assert_eq!(
        doc,
        "#: Actor:1:name\nmsgid \"Aluxes\"\nmsgstr \"\"\n\n#: Item:0:name\nmsgid \"Potion\"\nmsgstr \"\"\n\n"
    );
    assert_eq!(gettext_document(&vec![]), "");
}

#[test]
fn gettext_of_joined_lists_is_joined() {
    let a = vec![g("a", "1")];
    let b = vec![g("b", "2"), g("c", "3")];
    let mut ab = vec![g("a", "1")];
    ab.extend(vec![g("b", "2"), g("c", "3")]);
    assert_eq!(gettext_document(&ab), gettext_document(&a) + &gettext_document(&b));
}

#[test]
fn dedup_keeps_the_first_string_of_each_text() {
    let mut v = vec![g("a", "x"), g("b", "x"), g("c", "y"), g("d", "x"), g("e", "x"), g("f", "y"), g("h", "z")];
    dedup_strings(&mut v);
    assert_eq!(
        pairs(&v),
        vec![("a".to_string(), "x".to_string()), ("c".to_string(), "y".to_string()), ("h".to_string(), "z".to_string())]
    );
    for i in 0..v.len() {
        for j in i + 1..v.len() {
            assert_ne!(v[i].text, v[j].text);
        }
    }
    let before = pairs(&v);
    dedup_strings(&mut v);
    assert_eq!(pairs(&v), before);
    let mut empty: Vec<GameString> = vec![];
    dedup_strings(&mut empty);
    assert!(empty.is_empty());
}

#[test]
fn catalogue_dedups_then_formats() {
    let doc = gettext_catalogue(vec![g("a", "Yes"), g("b", "No"), g("c", "Yes")]);
    assert_eq!(doc, "#: a\nmsgid \"Yes\"\nmsgstr \"\"\n\n#: b\nmsgid \"No\"\nmsgstr \"\"\n\n");
}

#[test]
fn plain_scripts_come_out_whole() {
    let found = vec![Extracted::Text(g("a", "1")), Extracted::Script(g("Script:Main", "p 1")), Extracted::Text(g("b", "2"))];
    let out = plain_script_strings(found);
    assert_eq!(
        pairs(&out),
        vec![("a".to_string(), "1".to_string()), ("Script:Main".to_string(), "p 1".to_string()), ("b".to_string(), "2".to_string())]
    );
}

#[test]
fn script_list_lines() {
    let names = script_names("Main\r\n  Scene_Title  \n# disabled\n\n\t\nWindow_Base\n#\nLast");
    assert_eq!(names, vec!["Main", "Scene_Title", "Window_Base", "Last"]);
    assert!(script_names("").is_empty());
    assert_eq!(script_names("a\n"), vec!["a"]);
    assert_eq!(script_names("\u{3000}x\u{3000}\r"), vec!["x"]);
}

#[test]
fn script_names_agree_with_lines_and_trim() {
    let txt = "  one\n#two\nthree  \r\n\n \r\nfour\r";
    let expected: Vec<String> = txt
        .lines()
        .map(|l| l.trim())
        .filter(|l| !l.is_empty() && !l.starts_with('#'))
        .map(|l| l.to_string())
        .collect();
    assert_eq!(script_names(txt), expected);
}

#[test]
fn literal_strings() {
    let s = script_literal_string("Script:Main", 17, "hello".to_string());
    assert_eq!(s.location, "Script:Main:17");
    assert_eq!(s.text, "hello");
    assert_eq!(interpolated_content(b"\"a#{b}c\""), b"a#{b}c".to_vec());
    assert_eq!(interpolated_content(b"``"), Vec::<u8>::new());
}
