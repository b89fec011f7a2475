use wallpaper_manager::MonitorMap;

fn text(s: &str) -> String {
    s.to_string()
}

#[test]
fn new_map_is_empty() {
    let map: MonitorMap<String> = MonitorMap::new();
    assert!(map.is_empty());
    assert_eq!(map.len(), 0);
    assert_eq!(map.get("DP-1"), None);
    assert!(!map.contains_key("DP-1"));
    assert!(map.entry(0).is_none());
}

#[test]
fn insert_then_get() {
    let mut map: MonitorMap<String> = MonitorMap::new();
    assert_eq!(map.insert(text("DP-1"), text("/img/a.png")), None);
    assert_eq!(map.get("DP-1"), Some(&text("/img/a.png")));
    assert!(map.contains_key("DP-1"));
    assert_eq!(map.len(), 1);
    assert!(!map.is_empty());
}

#[test]
fn insert_again_replaces_in_place() {
    let mut map: MonitorMap<String> = MonitorMap::new();
    map.insert(text("DP-1"), text("/img/a.png"));
    map.insert(text("DP-2"), text("/img/b.png"));
    map.insert(text("eDP-1"), text("/img/c.png"));
    assert_eq!(map.insert(text("DP-2"), text("/img/d.png")), Some(text("/img/b.png")));
    assert_eq!(map.len(), 3);
    assert_eq!(map.entry(0), Some((&text("DP-1"), &text("/img/a.png"))));
    assert_eq!(map.entry(1), Some((&text("DP-2"), &text("/img/d.png"))));
    assert_eq!(map.entry(2), Some((&text("eDP-1"), &text("/img/c.png"))));
    assert_eq!(map.entry(3), None);
}

#[test]
fn names_are_case_sensitive() {
    let mut map: MonitorMap<u8> = MonitorMap::new();
    map.insert(text("DP-1"), 1);
    map.insert(text("dp-1"), 2);
    assert_eq!(map.len(), 2);
    assert_eq!(map.get("DP-1"), Some(&1));
    assert_eq!(map.get("dp-1"), Some(&2));
    assert_eq!(map.get("Dp-1"), None);
}

#[test]
fn names_that_share_a_start_are_kept_apart() {
    let mut map: MonitorMap<u8> = MonitorMap::new();
    map.insert(text("DP-1"), 1);
    map.insert(text("DP-10"), 2);
    map.insert(text(""), 3);
    assert_eq!(map.get("DP-1"), Some(&1));
    assert_eq!(map.get("DP-10"), Some(&2));
    assert_eq!(map.get(""), Some(&3));
    assert_eq!(map.get("DP-"), None);
}
