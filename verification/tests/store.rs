use wallpaper_manager::{get_state_path, state_path};

#[test]
fn state_file_below_the_configuration_directory() {
    assert_eq!(
        state_path(Some("/home/u/.config")),
        "/home/u/.config/wallpaper-manager/state.json"
    );
    assert_eq!(
        state_path(Some("/home/u/.config/")),
        "/home/u/.config/wallpaper-manager/state.json"
    );
}

#[test]
fn state_file_without_a_configuration_directory() {
    assert_eq!(state_path(None), "/tmp/wallpaper-manager/state.json");
}

#[test]
fn state_file_of_this_user() {
    let path = get_state_path();
    assert!(path.ends_with("wallpaper-manager/state.json"), "{path}");
    let again = get_state_path();
    assert!(again.ends_with("wallpaper-manager/state.json"), "{again}");
}
