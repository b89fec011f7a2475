use wallpaper_manager::json::{document_of, members_of, Entry, Member};
use wallpaper_manager::{
    load_state, save_state, MonitorMap, Orientation, Rotation, StateDocument, WallpaperState,
};

fn text(s: &str) -> String {
    s.to_string()
}

fn texts(map: &MonitorMap<String>) -> Vec<(String, String)> {
    let mut out = Vec::new();
    let mut i = 0;
    while let Some((name, value)) = map.entry(i) {
        out.push((name.clone(), value.clone()));
        i += 1;
    }
    out
}

fn orientations(map: &MonitorMap<Orientation>) -> Vec<(String, Orientation)> {
    let mut out = Vec::new();
    let mut i = 0;
    while let Some((name, value)) = map.entry(i) {
        out.push((name.clone(), *value));
        i += 1;
    }
    out
}

fn rotations(map: &MonitorMap<Rotation>) -> Vec<(String, Rotation)> {
    let mut out = Vec::new();
    let mut i = 0;
    while let Some((name, value)) = map.entry(i) {
        out.push((name.clone(), *value));
        i += 1;
    }
    out
}

fn is_empty(state: &WallpaperState) -> bool {
    state.applied.is_empty() && state.orientation.is_empty() && state.rotation.is_empty()
}

fn entry(key: &str, value: &str) -> Entry {
    Entry { key: text(key), text: Some(text(value)) }
}

fn member(name: &str, entries: Vec<Entry>) -> Member {
    Member { name: text(name), entries: Some(entries) }
}

const EXAMPLE: &str = r#"{
  "applied":     { "DP-1": "/home/u/pics/a.jpg" },
  "orientation": { "DP-1": "Vertical" },
  "rotation":    { "DP-1": "None" }
}"#;

#[test]
fn example_file_is_read() {
    let state = load_state(Some(EXAMPLE));
    assert_eq!(texts(&state.applied), vec![(text("DP-1"), text("/home/u/pics/a.jpg"))]);
    assert_eq!(orientations(&state.orientation), vec![(text("DP-1"), Orientation::Vertical)]);
    assert_eq!(rotations(&state.rotation), vec![(text("DP-1"), Rotation::Deg0)]);
}

#[test]
fn unreadable_file_is_the_empty_state() {
    assert!(is_empty(&load_state(None)));
}

#[test]
fn malformed_text_is_the_empty_state() {
    for malformed in [
        "",
        "{",
        "}",
        "not json",
        "{\"applied\": {\"DP-1\": \"/img/a.png\"}",
        "{\"applied\": {\"DP-1\": \"/img/a.png\"}} trailing",
        "{'applied': {}}",
        "{\"applied\": {\"DP-1\": \"/img/a.png\",}}",
    ] {
        assert!(is_empty(&load_state(Some(malformed))), "{malformed:?}");
    }
}

#[test]
fn text_of_another_shape_is_the_empty_state() {
    for other in [
        "null",
        "[]",
        "\"applied\"",
        "42",
        "[{\"DP-1\": \"/img/a.png\"}, {}, {}]",
        "{\"applied\": null}",
        "{\"applied\": [], \"orientation\": {}, \"rotation\": {}}",
        "{\"applied\": \"/img/a.png\"}",
        "{\"applied\": {\"DP-1\": 7}}",
        "{\"applied\": {\"DP-1\": null}}",
        "{\"applied\": {\"DP-1\": {\"path\": \"/img/a.png\"}}}",
        "{\"applied\": {\"DP-1\": \"/img/a.png\"}, \"orientation\": {\"DP-1\": 90}}",
        "{\"applied\": {\"DP-1\": \"/img/a.png\"}, \"orientation\": {\"DP-1\": \"Sideways\"}}",
        "{\"applied\": {\"DP-1\": \"/img/a.png\"}, \"rotation\": {\"DP-1\": \"Deg90\"}}",
        "{\"applied\": {\"DP-1\": \"/img/a.png\"}, \"rotation\": {\"DP-1\": {\"Deg180\": null}}}",
    ] {
        assert!(is_empty(&load_state(Some(other))), "{other:?}");
    }
}

#[test]
fn missing_members_read_as_empty() {
    let state = load_state(Some("{}"));
    assert!(is_empty(&state));
    let state = load_state(Some(
        "{\"applied\": {\"DP-1\": \"/img/a.png\"}, \"orientation\": {\"DP-1\": \"Vertical\"}}",
    ));
    assert_eq!(texts(&state.applied), vec![(text("DP-1"), text("/img/a.png"))]);
    assert_eq!(orientations(&state.orientation), vec![(text("DP-1"), Orientation::Vertical)]);
    assert!(state.rotation.is_empty());
    let state = load_state(Some("{\"rotation\": {\"eDP-1\": \"Deg180\"}}"));
    assert!(state.applied.is_empty());
    assert!(state.orientation.is_empty());
    assert_eq!(rotations(&state.rotation), vec![(text("eDP-1"), Rotation::Deg180)]);
}

#[test]
fn unknown_members_are_passed_over() {
    let state = load_state(Some(
        "{\"version\": 2, \"applied\": {\"DP-1\": \"/img/a.png\"}, \"theme\": {\"dark\": true}, \
         \"notes\": [1, 2], \"Applied\": {\"DP-9\": \"/x\"}}",
    ));
    assert_eq!(texts(&state.applied), vec![(text("DP-1"), text("/img/a.png"))]);
    assert!(state.orientation.is_empty());
    assert!(state.rotation.is_empty());
}

#[test]
fn strings_are_read_with_their_escapes() {
    let state = load_state(Some(
        "{\"applied\": {\"DP-1\": \"/img/a \\\"b\\\" \\u00e9\\n.png\", \"H\\u0044MI\": \"/\\\\\"}}",
    ));
    assert_eq!(state.applied.get("DP-1"), Some(&text("/img/a \"b\" é\n.png")));
    assert_eq!(state.applied.get("HDMI"), Some(&text("/\\")));
}

#[test]
fn written_text_has_the_three_objects() {
    let mut state = WallpaperState::new();
    state.assign("DP-1", "/home/u/pics/a.jpg", Orientation::Vertical, Rotation::Deg0);
    let written = save_state(&state).unwrap();
    assert_eq!(
        written,
        "{\n  \"applied\": {\n    \"DP-1\": \"/home/u/pics/a.jpg\"\n  },\n  \"orientation\": {\n    \
         \"DP-1\": \"Vertical\"\n  },\n  \"rotation\": {\n    \"DP-1\": \"None\"\n  }\n}"
    );
}

#[test]
fn empty_state_is_written_as_three_empty_objects() {
    let written = save_state(&WallpaperState::new()).unwrap();
    assert_eq!(written, "{\n  \"applied\": {},\n  \"orientation\": {},\n  \"rotation\": {}\n}");
    assert!(is_empty(&load_state(Some(&written))));
}

#[test]
fn written_text_reads_back_as_the_state() {
    let mut state = WallpaperState::new();
    state.assign("DP-1", "/img/a \"quoted\" é.png", Orientation::Vertical, Rotation::Deg180);
    state.assign("eDP-1", "/img/b\\c\n.webp", Orientation::Horizontal, Rotation::Deg0);
    state.orientation.insert(text("HDMI-A-1"), Orientation::Vertical);
    state.rotation.insert(text("DP-7"), Rotation::Deg180);
    let written = save_state(&state).unwrap();
    let again = load_state(Some(&written));
    let mut wanted = texts(&state.applied);
    wanted.sort();
    let mut got = texts(&again.applied);
    got.sort();
    assert_eq!(got, wanted);
    for (name, orientation) in orientations(&state.orientation) {
        assert_eq!(again.orientation.get(&name), Some(&orientation));
    }
    for (name, rotation) in rotations(&state.rotation) {
        assert_eq!(again.rotation.get(&name), Some(&rotation));
    }
    assert_eq!(again.orientation.len(), state.orientation.len());
    assert_eq!(again.rotation.len(), state.rotation.len());
}

#[test]
fn reading_then_writing_gives_an_equal_document() {
    let first = load_state(Some(EXAMPLE));
    let written = save_state(&first).unwrap();
    let second = load_state(Some(&written));
    assert_eq!(texts(&second.applied), texts(&first.applied));
    assert_eq!(orientations(&second.orientation), orientations(&first.orientation));
    assert_eq!(rotations(&second.rotation), rotations(&first.rotation));
    assert_eq!(save_state(&second).unwrap(), written);
}

#[test]
fn document_of_members() {
    let members = vec![
        member("rotation", vec![entry("DP-1", "Deg180")]),
        member("other", vec![entry("x", "y")]),
        Member { name: text("ignored"), entries: None },
        member("applied", vec![entry("DP-1", "/img/a.png"), entry("DP-2", "/img/b.png")]),
    ];
    let document = document_of(&members).unwrap();
    assert_eq!(
        texts(&document.applied),
        vec![(text("DP-1"), text("/img/a.png")), (text("DP-2"), text("/img/b.png"))]
    );
    assert!(document.orientation.is_empty());
    assert_eq!(texts(&document.rotation), vec![(text("DP-1"), text("Deg180"))]);
}

#[test]
fn member_that_is_no_object_of_strings_gives_no_document() {
    let members = vec![Member { name: text("applied"), entries: None }];
    assert!(document_of(&members).is_none());
    let members = vec![member("applied", vec![Entry { key: text("DP-1"), text: None }])];
    assert!(document_of(&members).is_none());
    let members = vec![
        member("applied", vec![entry("DP-1", "/img/a.png")]),
        Member { name: text("rotation"), entries: None },
    ];
    assert!(document_of(&members).is_none());
}

#[test]
fn first_member_of_a_name_counts_and_last_entry_of_a_key() {
    let members = vec![
        member("applied", vec![entry("DP-1", "/a"), entry("DP-2", "/b"), entry("DP-1", "/c")]),
        member("applied", vec![entry("DP-3", "/d")]),
    ];
    let document = document_of(&members).unwrap();
    assert_eq!(texts(&document.applied), vec![(text("DP-1"), text("/c")), (text("DP-2"), text("/b"))]);
}

#[test]
fn members_of_a_document() {
    let mut document = StateDocument::new();
    document.applied.insert(text("DP-1"), text("/img/a.png"));
    document.orientation.insert(text("DP-1"), text("Vertical"));
    let members = members_of(&document);
    assert_eq!(members.len(), 3);
    assert_eq!(members[0].name, "applied");
    assert_eq!(members[1].name, "orientation");
    assert_eq!(members[2].name, "rotation");
    let applied = members[0].entries.as_ref().unwrap();
    assert_eq!(applied.len(), 1);
    assert_eq!(applied[0].key, "DP-1");
    assert_eq!(applied[0].text, Some(text("/img/a.png")));
    assert_eq!(members[1].entries.as_ref().unwrap()[0].text, Some(text("Vertical")));
    assert!(members[2].entries.as_ref().unwrap().is_empty());
    let again = document_of(&members).unwrap();
    assert_eq!(texts(&again.applied), texts(&document.applied));
    assert_eq!(texts(&again.orientation), texts(&document.orientation));
    assert_eq!(texts(&again.rotation), texts(&document.rotation));
}
