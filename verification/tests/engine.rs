use wallpaper_manager::{
    load_state, save_state, set_wallpaper, Action, Notice, Orientation, Rotation, SetJob,
    SetPhase, WallpaperState,
};

/// Stand-ins for the converter, the daemon and the store, which keep what they were asked.
struct Programs {
    converter_works: bool,
    daemon_works: bool,
    store_works: bool,
    calls: Vec<String>,
    notices: Vec<Notice>,
    /// What the store holds after each write: the images read back from the text.
    written: Vec<Vec<(String, String)>>,
}

impl Programs {
    fn new() -> Programs {
        Programs {
            converter_works: true,
            daemon_works: true,
            store_works: true,
            calls: Vec::new(),
            notices: Vec::new(),
            written: Vec::new(),
        }
    }
}

fn command_line(action: &Action) -> String {
    let call = action.invocation().unwrap();
    format!("{} {}", call.program, call.arguments.join(" "))
}

fn applied(state: &WallpaperState) -> Vec<(String, String)> {
    let mut out = Vec::new();
    let mut i = 0;
    while let Some((name, value)) = state.applied.entry(i) {
        out.push((name.clone(), value.clone()));
        i += 1;
    }
    out
}

fn drive(job: &mut SetJob, state: &mut WallpaperState, programs: &mut Programs) {
    loop {
        let action = job.pending();
        let succeeded = match &action {
            Action::Done => return,
            Action::Probe { .. } => unreachable!(),
            Action::Rotate { .. } => {
                programs.calls.push(command_line(&action));
                programs.converter_works
            }
            Action::Show { .. } => {
                programs.calls.push(command_line(&action));
                programs.daemon_works
            }
            Action::Save => {
                if programs.store_works {
                    let text = save_state(state).unwrap();
                    programs.written.push(applied(&load_state(Some(&text))));
                }
                programs.store_works
            }
        };
        let notice = job.report(state, succeeded);
        programs.notices.push(notice);
    }
}

fn pair(a: &str, b: &str) -> (String, String) {
    (a.to_string(), b.to_string())
}

#[test]
fn set_horizontal() {
    let mut state = WallpaperState::new();
    let mut programs = Programs::new();
    let mut job = set_wallpaper("DP-1", "/img/a.png", Orientation::Horizontal, Rotation::Deg0, "/tmp");
    drive(&mut job, &mut state, &mut programs);
    assert_eq!(programs.calls, vec!["swww img --outputs DP-1 /img/a.png".to_string()]);
    assert_eq!(applied(&state), vec![pair("DP-1", "/img/a.png")]);
    assert_eq!(state.orientation.get("DP-1"), Some(&Orientation::Horizontal));
    assert_eq!(state.rotation.get("DP-1"), Some(&Rotation::Deg0));
    assert_eq!(state.orientation.len(), 1);
    assert_eq!(state.rotation.len(), 1);
    assert_eq!(programs.written, vec![vec![pair("DP-1", "/img/a.png")]]);
    assert_eq!(programs.notices, vec![Notice::Applied, Notice::Quiet]);
    assert!(job.is_done());
}

#[test]
fn set_vertical() {
    let mut state = WallpaperState::new();
    let mut programs = Programs::new();
    let mut job = set_wallpaper("DP-2", "/img/b.jpg", Orientation::Vertical, Rotation::Deg0, "/tmp");
    drive(&mut job, &mut state, &mut programs);
    assert_eq!(
        programs.calls,
        vec![
            "convert /img/b.jpg -rotate 90 /tmp/wallpaper_rotated.jpg".to_string(),
            "swww img --outputs DP-2 /tmp/wallpaper_rotated.jpg".to_string(),
        ]
    );
    assert_eq!(applied(&state), vec![pair("DP-2", "/img/b.jpg")]);
    assert_eq!(state.orientation.get("DP-2"), Some(&Orientation::Vertical));
    assert_eq!(state.rotation.get("DP-2"), Some(&Rotation::Deg0));
    assert_eq!(programs.notices, vec![Notice::Quiet, Notice::Applied, Notice::Quiet]);
}

#[test]
fn set_vertical_and_half_turn() {
    let mut state = WallpaperState::new();
    let mut programs = Programs::new();
    let mut job =
        set_wallpaper("DP-2", "/img/b.jpg", Orientation::Vertical, Rotation::Deg180, "/tmp");
    drive(&mut job, &mut state, &mut programs);
    assert_eq!(programs.calls[0], "convert /img/b.jpg -rotate 270 /tmp/wallpaper_rotated.jpg");
    assert_eq!(programs.calls[1], "swww img --outputs DP-2 /tmp/wallpaper_rotated.jpg");
    assert_eq!(programs.calls.len(), 2);
    assert_eq!(applied(&state), vec![pair("DP-2", "/img/b.jpg")]);
}

#[test]
fn set_half_turn_alone() {
    let mut state = WallpaperState::new();
    let mut programs = Programs::new();
    let mut job =
        set_wallpaper("eDP-1", "/img/c.bmp", Orientation::Horizontal, Rotation::Deg180, "/run/tmp/");
    drive(&mut job, &mut state, &mut programs);
    assert_eq!(
        programs.calls,
        vec![
            "convert /img/c.bmp -rotate 180 /run/tmp/wallpaper_rotated.jpg".to_string(),
            "swww img --outputs eDP-1 /run/tmp/wallpaper_rotated.jpg".to_string(),
        ]
    );
    assert_eq!(state.rotation.get("eDP-1"), Some(&Rotation::Deg180));
}

#[test]
fn daemon_failure() {
    let mut state = WallpaperState::new();
    let mut programs = Programs::new();
    programs.daemon_works = false;
    let mut job = set_wallpaper("DP-1", "/img/a.png", Orientation::Horizontal, Rotation::Deg0, "/tmp");
    drive(&mut job, &mut state, &mut programs);
    assert_eq!(programs.calls, vec!["swww img --outputs DP-1 /img/a.png".to_string()]);
    assert!(state.applied.is_empty());
    assert!(state.orientation.is_empty());
    assert!(state.rotation.is_empty());
    assert!(programs.written.is_empty());
    assert_eq!(programs.notices, vec![Notice::ApplyFailed]);
    assert!(job.is_done());
}

#[test]
fn daemon_failure_keeps_the_earlier_assignment() {
    let mut state = WallpaperState::new();
    state.assign("DP-1", "/img/old.png", Orientation::Horizontal, Rotation::Deg0);
    let mut programs = Programs::new();
    programs.daemon_works = false;
    let mut job = set_wallpaper("DP-1", "/img/a.png", Orientation::Vertical, Rotation::Deg180, "/tmp");
    drive(&mut job, &mut state, &mut programs);
    assert_eq!(applied(&state), vec![pair("DP-1", "/img/old.png")]);
    assert_eq!(state.orientation.get("DP-1"), Some(&Orientation::Horizontal));
    assert_eq!(state.rotation.get("DP-1"), Some(&Rotation::Deg0));
    assert!(programs.written.is_empty());
    assert_eq!(programs.notices, vec![Notice::Quiet, Notice::ApplyFailed]);
}

#[test]
fn converter_missing_shows_the_image_as_it_is() {
    let mut state = WallpaperState::new();
    let mut programs = Programs::new();
    programs.converter_works = false;
    let mut job = set_wallpaper("DP-2", "/img/b.jpg", Orientation::Vertical, Rotation::Deg0, "/tmp");
    drive(&mut job, &mut state, &mut programs);
    assert_eq!(
        programs.calls,
        vec![
            "convert /img/b.jpg -rotate 90 /tmp/wallpaper_rotated.jpg".to_string(),
            "swww img --outputs DP-2 /img/b.jpg".to_string(),
        ]
    );
    assert_eq!(programs.notices, vec![Notice::RotateFailed, Notice::Applied, Notice::Quiet]);
    assert_eq!(applied(&state), vec![pair("DP-2", "/img/b.jpg")]);
    assert_eq!(state.orientation.get("DP-2"), Some(&Orientation::Vertical));
    assert_eq!(programs.written, vec![vec![pair("DP-2", "/img/b.jpg")]]);
}

#[test]
fn unwritable_store_still_remembers_until_exit() {
    let mut state = WallpaperState::new();
    let mut programs = Programs::new();
    programs.store_works = false;
    let mut job = set_wallpaper("DP-1", "/img/a.png", Orientation::Horizontal, Rotation::Deg0, "/tmp");
    drive(&mut job, &mut state, &mut programs);
    assert_eq!(programs.notices, vec![Notice::Applied, Notice::SaveFailed]);
    assert_eq!(applied(&state), vec![pair("DP-1", "/img/a.png")]);
    assert!(programs.written.is_empty());
}

#[test]
fn applied_holds_the_chosen_image_only_after_the_daemon_succeeded() {
    for orientation in [Orientation::Horizontal, Orientation::Vertical] {
        for rotation in [Rotation::Deg0, Rotation::Deg180] {
            for converter_works in [false, true] {
                for daemon_works in [false, true] {
                    let mut state = WallpaperState::new();
                    let mut programs = Programs::new();
                    programs.converter_works = converter_works;
                    programs.daemon_works = daemon_works;
                    let mut job = set_wallpaper("DP-1", "/img/a.png", orientation, rotation, "/tmp");
                    drive(&mut job, &mut state, &mut programs);
                    assert_eq!(state.is_applied("DP-1", "/img/a.png"), daemon_works);
                    assert!(!state.is_applied("DP-1", "/tmp/wallpaper_rotated.jpg"));
                    assert_eq!(programs.written.len(), if daemon_works { 1 } else { 0 });
                }
            }
        }
    }
}

#[test]
fn converter_gets_the_degrees_of_the_transform() {
    let cases = [
        (Orientation::Horizontal, Rotation::Deg0, None),
        (Orientation::Vertical, Rotation::Deg0, Some("90")),
        (Orientation::Horizontal, Rotation::Deg180, Some("180")),
        (Orientation::Vertical, Rotation::Deg180, Some("270")),
    ];
    for (orientation, rotation, degrees) in cases {
        let mut state = WallpaperState::new();
        let mut programs = Programs::new();
        let mut job = set_wallpaper("DP-1", "/img/a.png", orientation, rotation, "/tmp");
        drive(&mut job, &mut state, &mut programs);
        let converter: Vec<&String> =
            programs.calls.iter().filter(|call| call.starts_with("convert ")).collect();
        match degrees {
            None => assert!(converter.is_empty()),
            Some(degrees) => {
                assert_eq!(converter.len(), 1);
                assert_eq!(
                    *converter[0],
                    format!("convert /img/a.png -rotate {degrees} /tmp/wallpaper_rotated.jpg")
                );
            }
        }
    }
}

#[test]
fn phases_follow_each_other() {
    let mut state = WallpaperState::new();
    let mut job = set_wallpaper("DP-1", "/img/a.png", Orientation::Vertical, Rotation::Deg0, "/tmp");
    assert_eq!(job.phase(), SetPhase::Rotating);
    assert_eq!(job.assignment().monitor, "DP-1");
    assert_eq!(job.assignment().image_path, "/img/a.png");
    assert_eq!(job.assignment().degrees(), 90);
    assert!(matches!(job.pending(), Action::Rotate { degrees: 90, .. }));
    job.report(&mut state, true);
    assert_eq!(job.phase(), SetPhase::Showing { rotated: true });
    job.report(&mut state, true);
    assert_eq!(job.phase(), SetPhase::Saving);
    assert!(matches!(job.pending(), Action::Save));
    assert!(job.pending().invocation().is_none());
    job.report(&mut state, true);
    assert_eq!(job.phase(), SetPhase::Done);
    assert!(matches!(job.pending(), Action::Done));
    assert_eq!(job.report(&mut state, true), Notice::Quiet);
    assert_eq!(job.phase(), SetPhase::Done);
    assert_eq!(state.applied.len(), 1);
}
