use wallpaper_manager::display::{converter_invocation, daemon_invocation, monitor_query};
use wallpaper_manager::{parse_monitors, Action};

/// The same reading with the tools of the standard library.
fn reference(output: &str) -> Vec<String> {
    output
        .lines()
        .filter_map(|line| {
            if line.contains("Monitor") {
                line.split_whitespace().nth(1).map(|s| s.to_string())
            } else {
                None
            }
        })
        .collect()
}

fn texts(items: &[&str]) -> Vec<String> {
    items.iter().map(|s| s.to_string()).collect()
}

#[test]
fn converter_call_is_spelled_out() {
    let call = converter_invocation("/img/b.jpg", 90, "/tmp/wallpaper_rotated.jpg");
    assert_eq!(call.program, "convert");
    assert_eq!(call.arguments, texts(&["/img/b.jpg", "-rotate", "90", "/tmp/wallpaper_rotated.jpg"]));
    let call = converter_invocation("a b.png", 270, "out.jpg");
    assert_eq!(call.arguments, texts(&["a b.png", "-rotate", "270", "out.jpg"]));
}

#[test]
fn daemon_call_is_spelled_out() {
    let call = daemon_invocation("DP-1", "/img/a.png");
    assert_eq!(call.program, "swww");
    assert_eq!(call.arguments, texts(&["img", "--outputs", "DP-1", "/img/a.png"]));
}

#[test]
fn monitor_query_is_spelled_out() {
    let call = monitor_query();
    assert_eq!(call.program, "hyprctl");
    assert_eq!(call.arguments, texts(&["monitors"]));
}

#[test]
fn actions_know_their_program() {
    let rotate = Action::Rotate {
        source: "/img/a.png".to_string(),
        degrees: 180,
        target: "/tmp/t.jpg".to_string(),
    };
    let call = rotate.invocation().unwrap();
    assert_eq!(call.program, "convert");
    assert_eq!(call.arguments, texts(&["/img/a.png", "-rotate", "180", "/tmp/t.jpg"]));
    let show = Action::Show { monitor: "eDP-1".to_string(), path: "/tmp/t.jpg".to_string() };
    let call = show.invocation().unwrap();
    assert_eq!(call.program, "swww");
    assert_eq!(call.arguments, texts(&["img", "--outputs", "eDP-1", "/tmp/t.jpg"]));
    assert!(Action::Probe { path: "/img/a.png".to_string() }.invocation().is_none());
    assert!(Action::Save.invocation().is_none());
    assert!(Action::Done.invocation().is_none());
}

#[test]
fn monitors_of_a_compositor_answer() {
    let output = "Monitor DP-1 (ID 0):\n\t2560x1440@59.95100 at 0x0\n\tdescription: Dell\n\n\
                  Monitor eDP-1 (ID 1):\n\t1920x1080@60.00000 at 2560x0\n\tfocused: yes\n\n";
    assert_eq!(parse_monitors(output), texts(&["DP-1", "eDP-1"]));
}

#[test]
fn monitors_of_nothing() {
    assert_eq!(parse_monitors(""), Vec::<String>::new());
    assert_eq!(parse_monitors("\n\n"), Vec::<String>::new());
    assert_eq!(parse_monitors("no display here\n"), Vec::<String>::new());
}

#[test]
fn monitor_line_without_a_second_word_names_none() {
    assert_eq!(parse_monitors("Monitor\n"), Vec::<String>::new());
    assert_eq!(parse_monitors("   Monitor   \n"), Vec::<String>::new());
    assert_eq!(parse_monitors("Monitor\nDP-1\n"), Vec::<String>::new());
}

#[test]
fn the_word_may_stand_anywhere_in_its_line() {
    assert_eq!(parse_monitors("active Monitor: DP-3"), texts(&["Monitor:"]));
    assert_eq!(parse_monitors("x y Monitor"), texts(&["y"]));
    assert_eq!(parse_monitors("MyMonitors HDMI-A-1"), texts(&["HDMI-A-1"]));
    assert_eq!(parse_monitors("monitor DP-1"), Vec::<String>::new());
    assert_eq!(parse_monitors("Moni tor DP-1"), Vec::<String>::new());
}

#[test]
fn monitors_read_as_the_standard_library_reads_them() {
    let samples = [
        "",
        "Monitor DP-1 (ID 0):",
        "Monitor DP-1 (ID 0):\n",
        "Monitor DP-1 (ID 0):\r\nMonitor DP-2 (ID 1):\r\n",
        "Monitor DP-1\r",
        "Monitor\r\nDP-1",
        "\tMonitor\tDP-1\t\n",
        "  Monitor   eDP-1   (ID 0):  \n  Monitor   \n",
        "Monitor\u{a0}DP-1\u{2003}x",
        "Monitor\u{3000}HDMI-A-1",
        "Monitor\u{200b}DP-1 second",
        "Monitor\u{85}é-1\u{1680}",
        "MonitorMonitor Monitor\nMonitor",
        "a\n\nMonitor b\n\n\nc Monitor\n",
        "Monito\nr DP-1\n",
        "Монитор DP-1\nMonitor ДП-1 ü\n",
        "\n",
        "\r\n",
        "Monitor \n DP-1",
        "Monitor\x0bDP-2\x0cMonitor",
    ];
    for sample in samples {
        assert_eq!(parse_monitors(sample), reference(sample), "{sample:?}");
    }
}
