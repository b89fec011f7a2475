use wallpaper_manager::shell::{is_blank_name, Event, Request, Shell};
use wallpaper_manager::{Orientation, Rotation, WallpaperState};

fn text(s: &str) -> String {
    s.to_string()
}

fn remembered() -> WallpaperState {
    let mut state = WallpaperState::new();
    state.assign("DP-1", "/img/a.png", Orientation::Vertical, Rotation::Deg180);
    state
}

#[test]
fn window_opens_without_a_dialog() {
    let shell = Shell::new();
    assert!(shell.orientation_dialog.is_none());
    assert!(shell.rename_dialog.is_none());
    assert!(shell.delete_dialog.is_none());
}

#[test]
fn set_click_opens_the_dialog_with_the_remembered_orientation() {
    let state = remembered();
    let mut shell = Shell::new();
    let request = shell.handle(
        Event::SetClicked { monitor: text("DP-1"), image_path: text("/img/b.png") },
        &state,
        "/pics",
    );
    assert!(matches!(request, Request::Nothing));
    let dialog = shell.orientation_dialog.as_ref().unwrap();
    assert_eq!(dialog.monitor, "DP-1");
    assert_eq!(dialog.image_path, "/img/b.png");
    assert_eq!(dialog.orientation, Orientation::Vertical);

    let request = shell.handle(
        Event::SetClicked { monitor: text("DP-2"), image_path: text("/img/b.png") },
        &state,
        "/pics",
    );
    assert!(matches!(request, Request::Nothing));
    let dialog = shell.orientation_dialog.as_ref().unwrap();
    assert_eq!(dialog.monitor, "DP-2");
    assert_eq!(dialog.orientation, Orientation::Horizontal);
}

#[test]
fn apply_asks_for_the_image_with_the_chosen_orientation() {
    let state = remembered();
    let mut shell = Shell::new();
    shell.handle(
        Event::SetClicked { monitor: text("DP-1"), image_path: text("/img/b.png") },
        &state,
        "/pics",
    );
    shell.orientation_dialog.as_mut().unwrap().orientation = Orientation::Horizontal;
    match shell.handle(Event::ApplyClicked, &state, "/pics") {
        Request::SetWallpaper { monitor, image_path, orientation, rotation } => {
            assert_eq!(monitor, "DP-1");
            assert_eq!(image_path, "/img/b.png");
            assert_eq!(orientation, Orientation::Horizontal);
            assert_eq!(rotation, Rotation::Deg180);
        }
        other => panic!("{other:?}"),
    }
    assert!(shell.orientation_dialog.is_none());
    assert!(matches!(shell.handle(Event::ApplyClicked, &state, "/pics"), Request::Nothing));
}

#[test]
fn cancel_closes_the_orientation_dialog() {
    let state = remembered();
    let mut shell = Shell::new();
    shell.handle(
        Event::SetClicked { monitor: text("DP-1"), image_path: text("/img/b.png") },
        &state,
        "/pics",
    );
    assert!(matches!(shell.handle(Event::OrientationCancelled, &state, "/pics"), Request::Nothing));
    assert!(shell.orientation_dialog.is_none());
}

#[test]
fn rename_goes_into_the_folder_of_images() {
    let state = WallpaperState::new();
    let mut shell = Shell::new();
    shell.handle(
        Event::RenameClicked { image_path: text("/pics/old.png"), file_name: text("old.png") },
        &state,
        "/pics",
    );
    assert_eq!(shell.rename_dialog.as_ref().unwrap().target, "/pics/old.png");
    assert_eq!(shell.rename_dialog.as_ref().unwrap().new_name, "old.png");
    shell.rename_dialog.as_mut().unwrap().new_name = text("new.png");
    match shell.handle(Event::RenameSaveClicked, &state, "/pics") {
        Request::Rename { from, to } => {
            assert_eq!(from, "/pics/old.png");
            assert_eq!(to, "/pics/new.png");
        }
        other => panic!("{other:?}"),
    }
    assert!(shell.rename_dialog.is_some());
    shell.handle(Event::RenameFinished { renamed: false }, &state, "/pics");
    assert!(shell.rename_dialog.is_some());
    shell.handle(Event::RenameFinished { renamed: true }, &state, "/pics");
    assert!(shell.rename_dialog.is_none());
    assert!(matches!(shell.handle(Event::RenameSaveClicked, &state, "/pics"), Request::Nothing));
}

#[test]
fn blank_name_is_not_saved() {
    let state = WallpaperState::new();
    let mut shell = Shell::new();
    for name in ["", " ", "\t \u{a0}"] {
        shell.handle(
            Event::RenameClicked { image_path: text("/pics/old.png"), file_name: text(name) },
            &state,
            "/pics",
        );
        assert!(matches!(shell.handle(Event::RenameSaveClicked, &state, "/pics"), Request::Nothing));
        assert!(shell.rename_dialog.is_some());
    }
    assert!(matches!(shell.handle(Event::RenameCancelled, &state, "/pics"), Request::Nothing));
    assert!(shell.rename_dialog.is_none());
}

#[test]
fn blank_names() {
    for name in ["", " ", "\n\t ", "\u{3000}\u{2028}"] {
        assert!(is_blank_name(name), "{name:?}");
        assert_eq!(is_blank_name(name), name.trim().is_empty());
    }
    for name in ["a", " a ", "\u{200b}", "   .", "é"] {
        assert!(!is_blank_name(name), "{name:?}");
        assert_eq!(is_blank_name(name), name.trim().is_empty());
    }
}

#[test]
fn delete_waits_for_the_confirmation() {
    let state = WallpaperState::new();
    let mut shell = Shell::new();
    assert!(matches!(shell.handle(Event::DeleteConfirmed, &state, "/pics"), Request::Nothing));
    let request =
        shell.handle(Event::DeleteClicked { image_path: text("/pics/a.png") }, &state, "/pics");
    assert!(matches!(request, Request::Nothing));
    assert_eq!(shell.delete_dialog, Some(text("/pics/a.png")));
    match shell.handle(Event::DeleteConfirmed, &state, "/pics") {
        Request::Delete { path } => assert_eq!(path, "/pics/a.png"),
        other => panic!("{other:?}"),
    }
    assert!(shell.delete_dialog.is_none());
    shell.handle(Event::DeleteClicked { image_path: text("/pics/b.png") }, &state, "/pics");
    assert!(matches!(shell.handle(Event::DeleteCancelled, &state, "/pics"), Request::Nothing));
    assert!(shell.delete_dialog.is_none());
}

#[test]
fn dialogs_do_not_close_each_other() {
    let state = WallpaperState::new();
    let mut shell = Shell::new();
    shell.handle(
        Event::SetClicked { monitor: text("DP-1"), image_path: text("/pics/a.png") },
        &state,
        "/pics",
    );
    shell.handle(
        Event::RenameClicked { image_path: text("/pics/a.png"), file_name: text("a.png") },
        &state,
        "/pics",
    );
    shell.handle(Event::DeleteClicked { image_path: text("/pics/a.png") }, &state, "/pics");
    shell.handle(Event::DeleteCancelled, &state, "/pics");
    assert!(shell.orientation_dialog.is_some());
    assert!(shell.rename_dialog.is_some());
    shell.handle(Event::OrientationCancelled, &state, "/pics");
    assert!(shell.rename_dialog.is_some());
}
